//! The identity of a benchmark case.
use vstd::prelude::*;
use crate::text;

verus! {

/// Why a text is no case identity.
#[derive(Debug, Clone, Copy, PartialEq, Eq, Structural)]
pub enum CaseIdError {
    InvalidFunction,
    InvalidParameter,
    InvalidLabel,
}

impl CaseIdError {
    /// The text of the error.
    pub open spec fn text(self) -> Seq<char> {
        match self {
            CaseIdError::InvalidFunction => "invalid function name"@,
            CaseIdError::InvalidParameter => "invalid parameter name"@,
            CaseIdError::InvalidLabel => "invalid case label"@,
        }
    }

    /// Says what is invalid.
    pub fn message(&self) -> (message: &'static str)
        ensures
            message@ == self.text(),
    {
        match self {
            CaseIdError::InvalidFunction => "invalid function name",
            CaseIdError::InvalidParameter => "invalid parameter name",
            CaseIdError::InvalidLabel => "invalid case label",
        }
    }
}

/// What is benchmarked and in which configuration, as plain text.
pub struct CaseIdView {
    pub function: Seq<char>,
    pub parameter: Option<Seq<char>>,
}

/// The identity of a case: what is benchmarked and, where it has several configurations,
/// which one.
#[derive(Debug, PartialEq, Eq, PartialOrd, Ord)]
pub struct CaseId {
    // what you're benchmarking
    function: String,
    // what configuration you're benchmarking; empty where a label says it all
    parameter: String,
}

/// A label is not empty, holds no `/` and no control character, and neither begins nor
/// ends with white space.
pub open spec fn valid_label(label: Seq<char>) -> bool {
    &&& label.len() > 0
    &&& !label.contains('/')
    &&& forall|i: int| 0 <= i < label.len() ==> !text::control_char(#[trigger] label[i])
    &&& !text::white_space_char(label[0])
    &&& !text::white_space_char(label[label.len() - 1])
}

/// An identity is made of valid labels.
pub open spec fn valid_id(id: CaseIdView) -> bool {
    &&& valid_label(id.function)
    &&& id.parameter matches Some(parameter) ==> valid_label(parameter)
}

/// The text of an identity: `function/parameter`, or the label alone.
pub open spec fn id_text(id: CaseIdView) -> Seq<char> {
    match id.parameter {
        Some(parameter) => id.function + seq!['/'] + parameter,
        None => id.function,
    }
}

/// How an identity is shown in errors, from its labels in quotes: with the names of its
/// parts, or the label alone.
pub open spec fn shown_text(function: Seq<char>, parameter: Option<Seq<char>>) -> Seq<char> {
    match parameter {
        Some(parameter) => "CaseId { function: "@ + function + ", parameter: "@ + parameter + " }"@,
        None => function,
    }
}

/// How an identity is shown in errors.
pub open spec fn shown_id(id: CaseIdView) -> Seq<char> {
    shown_text(
        text::quoted_text(id.function),
        match id.parameter {
            Some(parameter) => Some(text::quoted_text(parameter)),
            None => None,
        },
    )
}

/// The identity that `text` spells: what stands before the first `/` is the function and
/// what follows it the parameter; a text without `/` is a label.
pub open spec fn parse_id(text: Seq<char>) -> Result<CaseIdView, CaseIdError> {
    match text.index_of_first('/') {
        Some(slash) => {
            let function = text.take(slash);
            let parameter = text.skip(slash + 1);
            if !valid_label(function) {
                Err(CaseIdError::InvalidFunction)
            } else if !valid_label(parameter) {
                Err(CaseIdError::InvalidParameter)
            } else {
                Ok(CaseIdView { function, parameter: Some(parameter) })
            }
        },
        None => if valid_label(text) {
            Ok(CaseIdView { function: text, parameter: None })
        } else {
            Err(CaseIdError::InvalidLabel)
        },
    }
}

impl View for CaseId {
    type V = CaseIdView;

    closed spec fn view(&self) -> CaseIdView {
        CaseIdView {
            function: self.function@,
            parameter: if self.parameter@.len() == 0 {
                None
            } else {
                Some(self.parameter@)
            },
        }
    }
}

fn is_valid_label(label: &str) -> (result: bool)
    ensures
        result == valid_label(label@),
{
    let chars: Vec<char> = text::chars_of(label);
    if chars.len() == 0 {
        return false;
    }
    for i in 0..chars.len()
        invariant
            chars@ == label@,
            forall|j: int| 0 <= j < i ==> label@[j] != '/' && !text::control_char(#[trigger] label@[j]),
    {
        if chars[i] == '/' || text::is_control(chars[i]) {
            proof {
                assert(chars@[i as int] == '/' ==> label@.contains('/'));
            }
            return false;
        }
    }
    !text::is_white_space(chars[0]) && !text::is_white_space(chars[chars.len() - 1])
}

/// How an identity with these labels is shown in errors; the labels come in quotes.
pub fn show_labels(function: &str, parameter: Option<&str>) -> (shown: String)
    ensures
        shown@ == shown_text(
            function@,
            match parameter {
                Some(parameter) => Some(parameter@),
                None => None,
            },
        ),
{
    match parameter {
        Some(parameter) => {
            let mut shown: String = "CaseId { function: ".to_owned();
            shown.append(function);
            shown.append(", parameter: ");
            shown.append(parameter);
            shown.append(" }");
            shown
        },
        None => function.to_owned(),
    }
}

impl CaseId {
    #[verifier::type_invariant]
    spec fn is_valid(self) -> bool {
        valid_id(self@)
    }

    /// Identifies the case by what is benchmarked and by its configuration.
    pub fn try_new(function: &str, parameter: &str) -> (result: Result<CaseId, CaseIdError>)
        ensures
            match result {
                Ok(id) => valid_id(id@) && id@ == (CaseIdView {
                    function: function@,
                    parameter: Some(parameter@),
                }),
                Err(CaseIdError::InvalidFunction) => !valid_label(function@),
                Err(CaseIdError::InvalidParameter) => valid_label(function@) && !valid_label(parameter@),
                Err(CaseIdError::InvalidLabel) => false,
            },
    {
        if !is_valid_label(function) {
            return Err(CaseIdError::InvalidFunction);
        }
        if !is_valid_label(parameter) {
            return Err(CaseIdError::InvalidParameter);
        }
        Ok(CaseId { function: function.to_owned(), parameter: parameter.to_owned() })
    }

    /// Identifies the case by a single label.
    pub fn from_label(label: &str) -> (result: Result<CaseId, CaseIdError>)
        ensures
            match result {
                Ok(id) => valid_id(id@) && id@ == (CaseIdView { function: label@, parameter: None }),
                Err(error) => error == CaseIdError::InvalidLabel && !valid_label(label@),
            },
    {
        if !is_valid_label(label) {
            return Err(CaseIdError::InvalidLabel);
        }
        Ok(CaseId { function: label.to_owned(), parameter: String::new() })
    }

    /// Reads an identity back from its text.
    pub fn from_full_id(full_id: &str) -> (result: Result<CaseId, CaseIdError>)
        ensures
            match (result, parse_id(full_id@)) {
                (Ok(id), Ok(parsed)) => id@ == parsed && valid_id(id@),
                (Err(error), Err(expected)) => error == expected,
                _ => false,
            },
    {
        let chars: Vec<char> = text::chars_of(full_id);
        for slash in 0..chars.len()
            invariant
                chars@ == full_id@,
                forall|j: int| 0 <= j < slash ==> full_id@[j] != '/',
        {
            if chars[slash] == '/' {
                proof {
                    lemma_first_slash(full_id@, slash as int);
                }
                let function: &str = full_id.substring_char(0, slash);
                let parameter: &str = full_id.substring_char(slash + 1, chars.len());
                return CaseId::try_new(function, parameter);
            }
        }
        proof {
            full_id@.index_of_first_ensures('/');
        }
        CaseId::from_label(full_id)
    }

    /// The identity as text.
    pub fn full_id(&self) -> (full_id: String)
        ensures
            full_id@ == id_text(self@),
            valid_id(self@),
    {
        proof {
            use_type_invariant(self);
        }
        let mut full_id: String = self.function.clone();
        if !self.parameter.as_str().is_empty() {
            full_id.append("/");
            full_id.append(self.parameter.as_str());
            proof {
                reveal_strlit("/");
                assert("/"@ =~= seq!['/']);
            }
        }
        full_id
    }

    /// The identity as it is shown in errors.
    pub fn shown(&self) -> (shown: String)
        ensures
            shown@ == shown_id(self@),
    {
        let function: String = text::quoted(self.function.as_str());
        if self.parameter.as_str().is_empty() {
            show_labels(function.as_str(), None)
        } else {
            let parameter: String = text::quoted(self.parameter.as_str());
            show_labels(function.as_str(), Some(parameter.as_str()))
        }
    }
}

/// The first `/` of a text stands where no `/` stands before it.
proof fn lemma_first_slash(text: Seq<char>, slash: int)
    requires
        0 <= slash < text.len(),
        text[slash] == '/',
        forall|j: int| 0 <= j < slash ==> text[j] != '/',
    ensures
        text.index_of_first('/') == Some(slash),
{
    text.index_of_first_ensures('/');
    assert(text.contains('/'));
    let first = text.index_of_first('/')->0;
    if slash < first {
        assert(text[slash] == '/');
    }
}

/// Reading the text of an identity gives the identity back.
pub proof fn law_full_id_round_trip(id: CaseIdView)
    requires
        valid_id(id),
    ensures
        parse_id(id_text(id)) == Ok::<CaseIdView, CaseIdError>(id),
{
    let text = id_text(id);
    let function = id.function;
    assert forall|j: int| 0 <= j < function.len() implies text[j] != '/' by {
        assert(function.contains(function[j]));
    }
    match id.parameter {
        Some(parameter) => {
            lemma_first_slash(text, function.len() as int);
            assert(text.take(function.len() as int) =~= function);
            assert(text.skip(function.len() as int + 1) =~= parameter);
        },
        None => {
            text.index_of_first_ensures('/');
        },
    }
}

/// Every identity that a text spells is valid and has that text.
pub proof fn law_parsed_id_spells_its_text(text: Seq<char>)
    ensures
        parse_id(text) matches Ok(id) ==> valid_id(id) && id_text(id) == text,
{
    text.index_of_first_ensures('/');
    if let Ok(id) = parse_id(text) {
        assert(id_text(id) =~= text);
    }
}

/// Different identities have different texts.
pub proof fn law_full_id_injective(left: CaseIdView, right: CaseIdView)
    requires
        valid_id(left),
        valid_id(right),
        id_text(left) == id_text(right),
    ensures
        left == right,
{
    law_full_id_round_trip(left);
    law_full_id_round_trip(right);
}

/// A text is a label exactly if it has characters, each of them is neither a slash nor a control
/// character, and the outer ones are no white space; its length does not matter.
pub proof fn law_labels_are_judged_by_their_characters(label: Seq<char>)
    ensures
        valid_label(label) <==> {
            &&& label.len() > 0
            &&& forall|c: char| #[trigger] label.contains(c) ==> c != '/' && !text::control_char(c)
            &&& !text::white_space_char(label.first())
            &&& !text::white_space_char(label.last())
        },
{
    if label.len() > 0 {
        assert(forall|i: int| 0 <= i < label.len() ==> label.contains(#[trigger] label[i]));
    }
}

/// Labels can be joined, also with any characters between them that a label may hold.
pub proof fn law_labels_can_be_joined(left: Seq<char>, between: Seq<char>, right: Seq<char>)
    requires
        valid_label(left),
        valid_label(right),
        forall|i: int|
            0 <= i < between.len() ==> #[trigger] between[i] != '/' && !text::control_char(between[i]),
    ensures
        valid_label(left + between + right),
{
    let joined = left + between + right;
    assert forall|i: int| 0 <= i < joined.len() implies joined[i] != '/' && !text::control_char(
        #[trigger] joined[i],
    ) by {
        if i < left.len() {
            assert(joined[i] == left[i]);
            assert(left.contains(left[i]));
        } else if i < left.len() + between.len() {
            assert(joined[i] == between[i - left.len()]);
        } else {
            let j = i - left.len() - between.len();
            assert(joined[i] == right[j]);
            assert(right.contains(right[j]));
        }
    }
    assert(joined[0] == left[0]);
    assert(joined[joined.len() - 1] == right[right.len() - 1]);
}

/// A slash or a control character anywhere spoils a label, and so does white space at its ends.
pub proof fn law_labels_are_spoiled(before: Seq<char>, c: char, after: Seq<char>)
    ensures
        c == '/' || text::control_char(c) ==> !valid_label(before + seq![c] + after),
        text::white_space_char(c) ==> !valid_label(seq![c] + after) && !valid_label(before + seq![c]),
        !valid_label(Seq::<char>::empty()),
{
    let spoiled = before + seq![c] + after;
    assert(spoiled[before.len() as int] == c);
    assert(spoiled.contains(c));
    assert((seq![c] + after)[0] == c);
    let ending = before + seq![c];
    assert(ending[ending.len() - 1] == c);
}

/// The text of an identity is its label, or its function and its parameter with one slash
/// between.
pub proof fn law_identities_are_spelled_with_one_slash(function: Seq<char>, parameter: Seq<char>)
    ensures
        id_text(CaseIdView { function, parameter: None }) == function,
        id_text(CaseIdView { function, parameter: Some(parameter) }).len() == function.len() + 1
            + parameter.len(),
        id_text(CaseIdView { function, parameter: Some(parameter) }).take(function.len() as int) == function,
        id_text(CaseIdView { function, parameter: Some(parameter) })[function.len() as int] == '/',
        id_text(CaseIdView { function, parameter: Some(parameter) }).skip(function.len() as int + 1)
            == parameter,
{
    let text = id_text(CaseIdView { function, parameter: Some(parameter) });
    assert(text.take(function.len() as int) =~= function);
    assert(text.skip(function.len() as int + 1) =~= parameter);
}

/// What stands before the first slash is read as the function and what follows it as the
/// parameter; the function is judged first. Without a slash the text is read as a label.
pub proof fn law_texts_are_read_at_the_first_slash(function: Seq<char>, parameter: Seq<char>)
    requires
        !function.contains('/'),
    ensures
        ({
            let read = parse_id(function + seq!['/'] + parameter);
            &&& read is Ok <==> valid_label(function) && valid_label(parameter)
            &&& read == Err::<CaseIdView, CaseIdError>(CaseIdError::InvalidFunction) <==> !valid_label(function)
            &&& read == Err::<CaseIdView, CaseIdError>(CaseIdError::InvalidParameter) <==> valid_label(function)
                && !valid_label(parameter)
            &&& read matches Ok(id) ==> id.function == function && id.parameter == Some(parameter)
        }),
        parse_id(function) is Ok <==> valid_label(function),
        parse_id(function) matches Ok(id) ==> id.function == function && id.parameter is None,
        parse_id(function) matches Err(error) ==> error == CaseIdError::InvalidLabel,
{
    let text = function + seq!['/'] + parameter;
    assert forall|j: int| 0 <= j < function.len() implies text[j] != '/' by {
        assert(function.contains(function[j]));
    }
    lemma_first_slash(text, function.len() as int);
    assert(text.take(function.len() as int) =~= function);
    assert(text.skip(function.len() as int + 1) =~= parameter);
    function.index_of_first_ensures('/');
}

/// An identity is shown by its label in quotes, or by both labels in quotes behind their names.
pub proof fn law_identities_are_shown_with_their_labels(function: Seq<char>, parameter: Seq<char>)
    ensures
        shown_id(CaseIdView { function, parameter: None }) == text::quoted_text(function),
        shown_id(CaseIdView { function, parameter: Some(parameter) }) == "CaseId { function: "@
            + text::quoted_text(function) + ", parameter: "@ + text::quoted_text(parameter) + " }"@,
{
}

}
