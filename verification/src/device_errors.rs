//! Errors that a GPU device reports outside of the calls that cause them.
use vstd::prelude::*;
use crate::text;

verus! {

/// The texts of `messages`, in order.
pub open spec fn message_texts(messages: Seq<String>) -> Seq<Seq<char>> {
    messages.map_values(|message: String| message@)
}

/// The errors that a device has reported so far.
#[derive(Debug)]
pub struct DeviceErrors {
    messages: Vec<String>,
}

impl View for DeviceErrors {
    type V = Seq<Seq<char>>;

    closed spec fn view(&self) -> Seq<Seq<char>> {
        message_texts(self.messages@)
    }
}

/// A device that reported errors by the end of a stage.
#[derive(Debug, PartialEq, Eq)]
pub struct DeviceFailure {
    pub stage: String,
    pub index: Option<u32>,
    pub messages: Vec<String>,
}

impl DeviceFailure {
    /// The failure names this stage and observation and holds these messages.
    pub open spec fn reports(self, stage: Seq<char>, index: Option<u32>, messages: Seq<Seq<char>>) -> bool {
        &&& self.stage@ == stage
        &&& self.index == index
        &&& message_texts(self.messages@) == messages
    }

    /// The text of the failure.
    pub open spec fn text(self) -> Seq<char> {
        failure_text(
            self.stage@,
            self.index,
            message_texts(self.messages@).map_values(|message: Seq<char>| text::quoted_text(message)),
        )
    }

    /// Says where the device failed and what it reported.
    pub fn message(&self) -> (message: String)
        ensures
            message@ == self.text(),
    {
        let ghost expected = message_texts(self.messages@).map_values(
            |message: Seq<char>| text::quoted_text(message),
        );
        let mut quoted: Vec<String> = Vec::new();
        for i in 0..self.messages.len()
            invariant
                expected == message_texts(self.messages@).map_values(
                    |message: Seq<char>| text::quoted_text(message),
                ),
                message_texts(quoted@) == expected.take(i as int),
        {
            let ghost before = quoted@;
            quoted.push(text::quoted(self.messages[i].as_str()));
            proof {
                assert(message_texts(quoted@) =~= message_texts(before).push(expected[i as int]));
                assert(expected.take(i + 1) =~= expected.take(i as int).push(expected[i as int]));
            }
        }
        assert(expected.take(self.messages.len() as int) =~= expected);
        describe_failure(self.stage.as_str(), self.index, &quoted)
    }
}

/// The text of a failure in this stage and observation, from the messages in quotes.
pub open spec fn failure_text(stage: Seq<char>, index: Option<u32>, quoted: Seq<Seq<char>>) -> Seq<char> {
    "case failed at stage "@ + stage + ", observation "@ + text::optional_text(index) + "\nmessage: ["@
        + text::joined_text(quoted) + "]"@
}

/// Says where a device failed and what it reported; the messages come in quotes.
pub fn describe_failure(stage: &str, index: Option<u32>, quoted: &Vec<String>) -> (message: String)
    ensures
        message@ == failure_text(stage@, index, message_texts(quoted@)),
{
    let mut message: String = "case failed at stage ".to_owned();
    message.append(stage);
    message.append(", observation ");
    message.append(text::optional(index).as_str());
    message.append("\nmessage: [");
    message.append(text::joined(quoted).as_str());
    message.append("]");
    message
}

impl Default for DeviceErrors {
    fn default() -> (errors: DeviceErrors)
        ensures
            errors@ == Seq::<Seq<char>>::empty(),
    {
        let errors = DeviceErrors { messages: Vec::new() };
        assert(errors@ =~= Seq::<Seq<char>>::empty());
        errors
    }
}

impl DeviceErrors {
    /// Adds an error.
    pub fn push(&mut self, message: String)
        ensures
            final(self)@ == old(self)@.push(message@),
    {
        self.messages.push(message);
        proof {
            assert(self@ =~= old(self)@.push(message@));
        }
    }

    /// The errors so far, in the order in which they came.
    pub fn snapshot(&self) -> (messages: Vec<String>)
        ensures
            message_texts(messages@) == self@,
    {
        let mut messages: Vec<String> = Vec::new();
        for i in 0..self.messages.len()
            invariant
                messages@ == self.messages@.take(i as int),
        {
            messages.push(self.messages[i].clone());
            assert(self.messages@.take(i + 1) =~= self.messages@.take(i as int).push(self.messages@[i as int]));
        }
        assert(self.messages@.take(self.messages.len() as int) =~= self.messages@);
        messages
    }
}

/// Fails if the device has reported an error by the end of `stage`.
pub fn fail_on_device_error(errors: &DeviceErrors, stage: &str, index: Option<u32>) -> (result: Result<
    (),
    DeviceFailure,
>)
    ensures
        match result {
            Ok(_) => errors@.len() == 0,
            Err(failure) => errors@.len() > 0 && failure.reports(stage@, index, errors@),
        },
{
    let messages: Vec<String> = errors.snapshot();
    if messages.len() == 0 {
        return Ok(());
    }
    Err(DeviceFailure { stage: stage.to_owned(), index, messages })
}

/// The errors of a device after it has reported `messages` one after another.
pub open spec fn after_reports(errors: Seq<Seq<char>>, messages: Seq<Seq<char>>) -> Seq<Seq<char>>
    decreases messages.len(),
{
    if messages.len() == 0 {
        errors
    } else {
        after_reports(errors, messages.drop_last()).push(messages.last())
    }
}

/// Every reported error is kept, behind the earlier ones and in the order of the reports,
/// also where the same error is reported again.
pub proof fn law_reports_are_kept_in_order(errors: Seq<Seq<char>>, messages: Seq<Seq<char>>)
    ensures
        after_reports(errors, messages) == errors + messages,
    decreases messages.len(),
{
    if messages.len() == 0 {
        assert(errors + messages =~= errors);
    } else {
        law_reports_are_kept_in_order(errors, messages.drop_last());
        assert((errors + messages.drop_last()).push(messages.last()) =~= errors + messages);
    }
}

/// A failure tells its stage, its observation and every message in quotes, in order and within
/// brackets.
pub proof fn law_failures_tell_everything(failure: DeviceFailure)
    ensures
        failure.text() == "case failed at stage "@ + failure.stage@ + ", observation "@ + text::optional_text(
            failure.index,
        ) + "\nmessage: ["@ + text::joined_text(
            Seq::new(failure.messages@.len(), |i: int| text::quoted_text(failure.messages@[i]@)),
        ) + "]"@,
        text::optional_text(None) == "None"@,
        failure.index matches Some(index) ==> text::optional_text(failure.index) == "Some("@
            + text::decimal_text(index as nat) + ")"@,
{
    let quoted = message_texts(failure.messages@).map_values(|message: Seq<char>| text::quoted_text(message));
    assert(quoted =~= Seq::new(failure.messages@.len(), |i: int| text::quoted_text(failure.messages@[i]@)));
}

/// A failure holds the messages of the device one for one.
pub proof fn law_failures_hold_the_messages(
    failure: DeviceFailure,
    stage: Seq<char>,
    index: Option<u32>,
    messages: Seq<Seq<char>>,
)
    ensures
        failure.reports(stage, index, messages) <==> {
            &&& failure.stage@ == stage
            &&& failure.index == index
            &&& failure.messages@.len() == messages.len()
            &&& forall|i: int| 0 <= i < messages.len() ==> (#[trigger] failure.messages@[i])@ == messages[i]
        },
{
    if failure.reports(stage, index, messages) {
        assert forall|i: int| 0 <= i < messages.len() implies (#[trigger] failure.messages@[i])@ == messages[i] by {
            assert(message_texts(failure.messages@)[i] == messages[i]);
        }
    }
    if failure.messages@.len() == messages.len() && forall|i: int|
        0 <= i < messages.len() ==> (#[trigger] failure.messages@[i])@ == messages[i] {
        assert(message_texts(failure.messages@) =~= messages);
    }
}

}
