//! Text as a sequence of characters: the character classes, the substring test and the
//! order that labels, selections and adapter keys are built on, and the spelling of
//! numbers, lists and quoted texts in messages.
use vstd::prelude::*;

verus! {

/// The control characters of Unicode (general category `Cc`).
pub open spec fn control_char(c: char) -> bool {
    c as int <= 0x1f || 0x7f <= c as int <= 0x9f
}

/// The characters with the Unicode property `White_Space`.
pub open spec fn white_space_char(c: char) -> bool {
    let code = c as int;
    ||| 0x09 <= code <= 0x0d
    ||| code == 0x20
    ||| code == 0x85
    ||| code == 0xa0
    ||| code == 0x1680
    ||| 0x2000 <= code <= 0x200a
    ||| code == 0x2028
    ||| code == 0x2029
    ||| code == 0x202f
    ||| code == 0x205f
    ||| code == 0x3000
}

/// `needle` stands in `text` at position `at`.
pub open spec fn occurs_at(text: Seq<char>, needle: Seq<char>, at: int) -> bool {
    &&& 0 <= at
    &&& at + needle.len() <= text.len()
    &&& text.subrange(at, at + needle.len()) == needle
}

/// `needle` is a contiguous part of `text`.
pub open spec fn contains_text(text: Seq<char>, needle: Seq<char>) -> bool {
    exists|at: int| occurs_at(text, needle, at)
}

/// `left` comes before `right` in the lexicographic order by code point, a proper prefix
/// before what it is a prefix of.
pub open spec fn text_before(left: Seq<char>, right: Seq<char>) -> bool {
    exists|at: int| first_difference(left, right, at) && at < right.len() && (at < left.len()
        ==> (left[at] as int) < (right[at] as int))
}

/// Up to `at` the two texts agree, and at `at` they differ or one of them has ended.
pub open spec fn first_difference(left: Seq<char>, right: Seq<char>, at: int) -> bool {
    &&& 0 <= at <= left.len()
    &&& at <= right.len()
    &&& left.take(at) == right.take(at)
    &&& at < left.len() && at < right.len() ==> left[at] != right[at]
}

/// The number in decimal notation, without leading zeros.
pub open spec fn decimal_text(number: nat) -> Seq<char>
    decreases number,
{
    let digit = "0123456789"@[(number % 10) as int];
    if number < 10 {
        seq![digit]
    } else {
        decimal_text(number / 10).push(digit)
    }
}

/// `None`, or the number within `Some(..)`.
pub open spec fn optional_text(number: Option<u32>) -> Seq<char> {
    match number {
        Some(number) => "Some("@ + decimal_text(number as nat) + ")"@,
        None => "None"@,
    }
}

/// The parts, with `, ` between any two.
pub open spec fn joined_text(parts: Seq<Seq<char>>) -> Seq<char>
    decreases parts.len(),
{
    if parts.len() == 0 {
        Seq::empty()
    } else if parts.len() == 1 {
        parts[0]
    } else {
        joined_text(parts.drop_last()) + ", "@ + parts.last()
    }
}

/// `text` in quotes and with its special characters escaped, as `str` gives it in the
/// format `{:?}`.
pub uninterp spec fn quoted_text(text: Seq<char>) -> Seq<char>;

/// The format `{:?}` of `str` puts a text in quotes and escapes its special characters;
/// which characters these are is left unsaid.
#[verifier::external_body]
pub(crate) fn quoted(text: &str) -> (quoted: String)
    ensures
        quoted@ == quoted_text(text@),
{
    format!("{:?}", text)
}

fn digit(value: u64) -> (digit: &'static str)
    requires
        value < 10,
    ensures
        digit@ == seq!["0123456789"@[value as int]],
{
    proof {
        reveal_strlit("0123456789");
        reveal_strlit("0");
        reveal_strlit("1");
        reveal_strlit("2");
        reveal_strlit("3");
        reveal_strlit("4");
        reveal_strlit("5");
        reveal_strlit("6");
        reveal_strlit("7");
        reveal_strlit("8");
        reveal_strlit("9");
    }
    match value {
        0 => "0",
        1 => "1",
        2 => "2",
        3 => "3",
        4 => "4",
        5 => "5",
        6 => "6",
        7 => "7",
        8 => "8",
        _ => "9",
    }
}

/// The number in decimal notation.
pub(crate) fn decimal(number: u64) -> (text: String)
    ensures
        text@ == decimal_text(number as nat),
    decreases number,
{
    let mut text: String = if number < 10 {
        String::new()
    } else {
        decimal(number / 10)
    };
    text.append(digit(number % 10));
    text
}

/// `None`, or the number within `Some(..)`.
pub(crate) fn optional(number: Option<u32>) -> (text: String)
    ensures
        text@ == optional_text(number),
{
    match number {
        Some(number) => {
            let mut text: String = "Some(".to_owned();
            text.append(decimal(number as u64).as_str());
            text.append(")");
            text
        },
        None => "None".to_owned(),
    }
}

/// The parts, with `, ` between any two.
pub(crate) fn joined(parts: &Vec<String>) -> (text: String)
    ensures
        text@ == joined_text(parts@.map_values(|part: String| part@)),
{
    let ghost views = parts@.map_values(|part: String| part@);
    let mut text: String = String::new();
    for i in 0..parts.len()
        invariant
            views == parts@.map_values(|part: String| part@),
            text@ == joined_text(views.take(i as int)),
    {
        proof {
            assert(views.take(i + 1).drop_last() =~= views.take(i as int));
            assert(Seq::<char>::empty() + views[i as int] =~= views[i as int]);
        }
        if i > 0 {
            text.append(", ");
        }
        text.append(parts[i].as_str());
    }
    assert(views.take(parts.len() as int) =~= views);
    text
}

/// The code point of `c`.
fn code_point(c: char) -> (code: u32)
    ensures
        code == c as int,
{
    c as u32
}

pub(crate) fn is_control(c: char) -> (result: bool)
    ensures
        result == control_char(c),
{
    let code: u32 = code_point(c);
    code <= 0x1f || (0x7f <= code && code <= 0x9f)
}

pub(crate) fn is_white_space(c: char) -> (result: bool)
    ensures
        result == white_space_char(c),
{
    let code: u32 = code_point(c);
    (0x09 <= code && code <= 0x0d) || code == 0x20 || code == 0x85 || code == 0xa0 || code == 0x1680
        || (0x2000 <= code && code <= 0x200a) || code == 0x2028 || code == 0x2029 || code == 0x202f
        || code == 0x205f || code == 0x3000
}

/// The characters of `text`, in order.
pub(crate) fn chars_of(text: &str) -> (chars: Vec<char>)
    ensures
        chars@ == text@,
{
    let mut chars: Vec<char> = Vec::new();
    for c in iter: text.chars()
        invariant
            iter.seq() == text@,
            chars@ == text@.take(iter.index()),
    {
        chars.push(c);
        assert(text@.take(iter.index() + 1) == text@.take(iter.index()).push(c));
    }
    assert(text@.take(text@.len() as int) == text@);
    chars
}

/// Whether `needle` is a contiguous part of `text`.
pub(crate) fn contains(text: &str, needle: &str) -> (result: bool)
    ensures
        result == contains_text(text@, needle@),
{
    let text_chars: Vec<char> = chars_of(text);
    let needle_chars: Vec<char> = chars_of(needle);
    if needle_chars.len() > text_chars.len() {
        return false;
    }
    let last: usize = text_chars.len() - needle_chars.len();
    let mut at: usize = 0;
    while at <= last
        invariant
            text_chars@ == text@,
            needle_chars@ == needle@,
            last == text@.len() - needle@.len(),
            text_chars.len() >= needle_chars.len(),
            at <= last + 1,
            forall|earlier: int| earlier < at ==> !occurs_at(text@, needle@, earlier),
        decreases last + 1 - at,
    {
        let mut matched: usize = 0;
        while matched < needle_chars.len() && text_chars[at + matched] == needle_chars[matched]
            invariant
                text_chars@ == text@,
                needle_chars@ == needle@,
                at + needle@.len() <= text@.len(),
                text_chars.len() == text@.len(),
                matched <= needle_chars.len(),
                forall|k: int| 0 <= k < matched ==> text@[at + k] == needle@[k],
            decreases needle_chars.len() - matched,
        {
            matched = matched + 1;
        }
        if matched == needle_chars.len() {
            assert(text@.subrange(at as int, at + needle@.len()) =~= needle@);
            assert(occurs_at(text@, needle@, at as int));
            return true;
        }
        assert(!occurs_at(text@, needle@, at as int)) by {
            if occurs_at(text@, needle@, at as int) {
                assert(text@.subrange(at as int, at + needle@.len())[matched as int] == needle@[matched as int]);
            }
        }
        if at == last {
            return false;
        }
        at = at + 1;
    }
    false
}

/// Whether `left` comes before `right` in the lexicographic order by code point.
pub(crate) fn before(left: &str, right: &str) -> (result: bool)
    ensures
        result == text_before(left@, right@),
{
    let left_chars: Vec<char> = chars_of(left);
    let right_chars: Vec<char> = chars_of(right);
    let mut at: usize = 0;
    while at < left_chars.len() && at < right_chars.len() && left_chars[at] == right_chars[at]
        invariant
            left_chars@ == left@,
            right_chars@ == right@,
            at <= left_chars.len(),
            at <= right_chars.len(),
            left@.take(at as int) == right@.take(at as int),
        decreases left_chars.len() - at,
    {
        proof {
            assert(left@.take(at + 1) == left@.take(at as int).push(left@[at as int]));
            assert(right@.take(at + 1) == right@.take(at as int).push(right@[at as int]));
        }
        at = at + 1;
    }
    proof {
        assert(first_difference(left@, right@, at as int));
        assert forall|other: int| first_difference(left@, right@, other) implies other == at by {
            lemma_first_difference_unique(left@, right@, other, at as int);
        }
    }
    at < right_chars.len() && (at == left_chars.len() || code_point(left_chars[at]) < code_point(right_chars[at]))
}

/// Two texts have at most one first difference.
proof fn lemma_first_difference_unique(left: Seq<char>, right: Seq<char>, a: int, b: int)
    requires
        first_difference(left, right, a),
        first_difference(left, right, b),
    ensures
        a == b,
{
    if a < b {
        assert(left.take(b)[a] == right.take(b)[a]);
    } else if b < a {
        assert(left.take(a)[b] == right.take(a)[b]);
    }
}

/// Two texts that agree up to `from` have a first difference.
proof fn lemma_first_difference_from(left: Seq<char>, right: Seq<char>, from: int) -> (at: int)
    requires
        0 <= from <= left.len(),
        from <= right.len(),
        left.take(from) == right.take(from),
    ensures
        first_difference(left, right, at),
    decreases left.len() - from,
{
    if from < left.len() && from < right.len() && left[from] == right[from] {
        assert(left.take(from + 1) == left.take(from).push(left[from]));
        assert(right.take(from + 1) == right.take(from).push(right[from]));
        lemma_first_difference_from(left, right, from + 1)
    } else {
        from
    }
}

/// Of two different texts exactly one comes before the other, and no text comes before
/// itself.
pub proof fn lemma_text_before_total(left: Seq<char>, right: Seq<char>)
    ensures
        text_before(left, right) ==> !text_before(right, left) && left != right,
        left != right ==> text_before(left, right) || text_before(right, left),
{
    assert(left.take(0) == right.take(0));
    let at = lemma_first_difference_from(left, right, 0);
    assert(first_difference(right, left, at));
    assert forall|other: int| first_difference(left, right, other) implies other == at by {
        lemma_first_difference_unique(left, right, other, at);
    }
    assert forall|other: int| first_difference(right, left, other) implies other == at by {
        lemma_first_difference_unique(right, left, other, at);
    }
    if at == left.len() && at == right.len() {
        assert(left == left.take(at));
        assert(right == right.take(at));
    }
}

/// The order of texts is transitive.
pub proof fn lemma_text_before_transitive(a: Seq<char>, b: Seq<char>, c: Seq<char>)
    requires
        text_before(a, b),
        text_before(b, c),
    ensures
        text_before(a, c),
{
    let i = choose|at: int| first_difference(a, b, at) && at < b.len() && (at < a.len() ==> (a[at] as int) < (
    b[at] as int));
    let j = choose|at: int| first_difference(b, c, at) && at < c.len() && (at < b.len() ==> (b[at] as int) < (
    c[at] as int));
    let k = if i <= j { i } else { j };
    assert(a.take(k) == b.take(i).take(k));
    assert(b.take(k) == b.take(i).take(k));
    assert(b.take(k) == b.take(j).take(k));
    assert(c.take(k) == b.take(j).take(k));
    assert(k < i ==> a[k] == b[k]) by {
        if k < i {
            assert(a.take(i)[k] == b.take(i)[k]);
        }
    }
    assert(k < j ==> b[k] == c[k]) by {
        if k < j {
            assert(b.take(j)[k] == c.take(j)[k]);
        }
    }
    assert(first_difference(a, c, k));
}

/// A text contains every part of it.
pub proof fn law_parts_are_contained(before: Seq<char>, part: Seq<char>, after: Seq<char>)
    ensures
        contains_text(before + part + after, part),
{
    let text = before + part + after;
    let at = before.len() as int;
    assert(text.subrange(at, at + part.len()) =~= part);
    assert(occurs_at(text, part, at));
}

/// A text that contains another is made of it and of what stands before and after it.
pub proof fn law_contained_texts_are_parts(text: Seq<char>, part: Seq<char>)
    requires
        contains_text(text, part),
    ensures
        exists|before: Seq<char>, after: Seq<char>| text == #[trigger] (before + part + after),
{
    let at = choose|at: int| occurs_at(text, part, at);
    let before = text.take(at);
    let after = text.skip(at + part.len());
    assert(text =~= before + part + after);
}

/// A text comes before its own continuations, and the first character in which two texts differ
/// decides between them, whatever follows.
pub proof fn law_first_difference_decides(
    common: Seq<char>,
    left: char,
    right: char,
    left_rest: Seq<char>,
    right_rest: Seq<char>,
)
    ensures
        text_before(common, common + seq![right] + right_rest),
        left != right ==> (text_before(
            common + seq![left] + left_rest,
            common + seq![right] + right_rest,
        ) <==> (left as int) < (right as int)),
{
    let at = common.len() as int;
    let l = common + seq![left] + left_rest;
    let r = common + seq![right] + right_rest;
    assert(common.take(at) =~= r.take(at));
    assert(first_difference(common, r, at));
    assert(l.take(at) =~= r.take(at));
    if left != right {
        assert(first_difference(l, r, at));
        assert forall|other: int| first_difference(l, r, other) implies other == at by {
            lemma_first_difference_unique(l, r, other, at);
        }
    }
}

/// The number that decimal digits spell.
pub open spec fn decimal_value(digits: Seq<char>) -> int
    decreases digits.len(),
{
    if digits.len() == 0 {
        0
    } else {
        10 * decimal_value(digits.drop_last()) + (digits.last() as int - '0' as int)
    }
}

/// The decimal notation of a number spells that number, in digits alone and without a leading
/// zero.
pub proof fn law_decimal_notation_spells_the_number(number: nat)
    ensures
        decimal_value(decimal_text(number)) == number,
        decimal_text(number).len() > 0,
        forall|i: int|
            0 <= i < decimal_text(number).len() ==> '0' as int <= #[trigger] decimal_text(number)[i] as int
                <= '9' as int,
        number > 0 ==> decimal_text(number)[0] != '0',
    decreases number,
{
    reveal_strlit("0123456789");
    let text = decimal_text(number);
    let digit = "0123456789"@[(number % 10) as int];
    assert(digit as int - '0' as int == number % 10);
    if number < 10 {
        assert(text.drop_last() =~= Seq::empty());
        assert(decimal_value(text.drop_last()) == 0);
    } else {
        law_decimal_notation_spells_the_number(number / 10);
        assert(text.drop_last() =~= decimal_text(number / 10));
    }
}

/// Joining keeps what was joined before: two lists are joined to the text of the first, `, ` and
/// the text of the second, and a single part is its own text.
pub proof fn law_joining_lists(left: Seq<Seq<char>>, right: Seq<Seq<char>>, part: Seq<char>)
    requires
        left.len() > 0,
        right.len() > 0,
    ensures
        joined_text(left + right) == joined_text(left) + seq![',', ' '] + joined_text(right),
        joined_text(seq![part]) == part,
        joined_text(Seq::<Seq<char>>::empty()) == Seq::<char>::empty(),
    decreases right.len(),
{
    reveal_strlit(", ");
    assert(", "@ =~= seq![',', ' ']);
    let all = left + right;
    assert(all.drop_last() =~= left + right.drop_last());
    if right.len() == 1 {
        assert(all.drop_last() =~= left);
    } else {
        law_joining_lists(left, right.drop_last(), part);
        assert(joined_text(all) =~= joined_text(left) + seq![',', ' '] + joined_text(right));
    }
}

/// The control characters are the first 32 characters and those from 127 to 159, and white
/// space is what Unicode lists as such.
pub proof fn law_character_classes(c: char)
    ensures
        control_char(c) <==> (c as int) < 32 || 127 <= c as int && (c as int) < 160,
        white_space_char(c) <==> {
            let code = c as int;
            ||| seq![0x20int, 0x85, 0xa0, 0x1680, 0x2028, 0x2029, 0x202f, 0x205f, 0x3000].contains(code)
            ||| 9 <= code && code < 14
            ||| 0x2000 <= code && code < 0x200b
        },
{
    let code = c as int;
    let single = seq![0x20int, 0x85, 0xa0, 0x1680, 0x2028, 0x2029, 0x202f, 0x205f, 0x3000];
    if white_space_char(c) {
        assert(single[0] == 0x20 && single[1] == 0x85 && single[2] == 0xa0 && single[3] == 0x1680);
        assert(single[4] == 0x2028 && single[5] == 0x2029 && single[6] == 0x202f && single[7] == 0x205f);
        assert(single[8] == 0x3000);
    }
}

}
