//! Text: numbers in decimal, names by which objects of a scene are found.
use crate::EntityId;
use vstd::prelude::*;
use vstd::string::*;

verus! {

/// The character of a digit.
pub open spec fn digit_char(d: nat) -> char {
    (d + 48) as char
}

/// A number in decimal, without leading zeros.
pub open spec fn decimal(n: nat) -> Seq<char>
    decreases n,
{
    if n < 10 {
        seq![digit_char(n)]
    } else {
        decimal(n / 10).push(digit_char(n % 10))
    }
}

/// The text of a single digit.
fn digit_text(d: u64) -> (r: &'static str)
    requires
        d < 10,
    ensures
        r@ == seq![digit_char(d as nat)],
{
    proof {
        reveal_strlit("0");
        reveal_strlit("1");
        reveal_strlit("2");
        reveal_strlit("3");
        reveal_strlit("4");
        reveal_strlit("5");
        reveal_strlit("6");
        reveal_strlit("7");
        reveal_strlit("8");
        reveal_strlit("9");
    }
    let r: &'static str = match d {
        0 => "0",
        1 => "1",
        2 => "2",
        3 => "3",
        4 => "4",
        5 => "5",
        6 => "6",
        7 => "7",
        8 => "8",
        _ => "9",
    };
    proof {
        assert(r@ =~= seq![digit_char(d as nat)]);
    }
    r
}

/// Writes a number in decimal behind a text.
pub fn push_decimal(text: &mut String, n: u64)
    ensures
        final(text)@ == old(text)@ + decimal(n as nat),
    decreases n,
{
    if n >= 10 {
        push_decimal(text, n / 10);
    }
    let ghost before = text@;
    text.append(digit_text(n % 10));
    proof {
        if n >= 10 {
            assert(text@ =~= old(text)@ + decimal(n as nat));
        } else {
            assert(before == old(text)@);
        }
    }
}

/// The first place in a list of names, from the back, that bears the given name.
pub open spec fn lookup(names: Seq<(String, EntityId)>, name: Seq<char>) -> Option<EntityId>
    decreases names.len(),
{
    if names.len() == 0 {
        None
    } else if names.last().0@ == name {
        Some(names.last().1)
    } else {
        lookup(names.drop_last(), name)
    }
}

/// The object that bears the given name. Where several do, the last one counts.
pub fn find_name(names: &Vec<(String, EntityId)>, name: &str) -> (r: Option<EntityId>)
    ensures
        r == lookup(names@, name@),
{
    let wanted: String = name.to_owned();
    let mut i: usize = names.len();
    proof {
        assert(names@.take(names@.len() as int) =~= names@);
    }
    while i > 0
        invariant
            i <= names@.len(),
            wanted@ == name@,
            lookup(names@, name@) == lookup(names@.take(i as int), name@),
        decreases i,
    {
        proof {
            assert(names@.take(i as int).drop_last() =~= names@.take(i - 1));
        }
        i = i - 1;
        if names[i].0 == wanted {
            return Some(names[i].1);
        }
    }
    None
}

/// `String::push`: the text with one more character at its end.
pub assume_specification[ String::push ](text: &mut String, c: char)
    ensures
        final(text)@ == old(text)@.push(c),
;

/// The characters of a text.
pub fn chars_of(text: &str) -> (r: Vec<char>)
    ensures
        r@ == text@,
{
    let mut chars: Vec<char> = Vec::new();
    let len: usize = text.unicode_len();
    let mut i: usize = 0;
    while i < len
        invariant
            i <= len == text@.len(),
            chars@ == text@.take(i as int),
        decreases len - i,
    {
        chars.push(text.get_char(i));
        proof {
            assert(text@.take(i + 1) =~= text@.take(i as int).push(text@[i as int]));
        }
        i = i + 1;
    }
    proof {
        assert(text@.take(len as int) =~= text@);
    }
    chars
}

/// The text that consists of the given characters.
pub fn text_of(chars: &Vec<char>) -> (r: String)
    ensures
        r@ == chars@,
{
    let mut text: String = String::new();
    let mut i: usize = 0;
    while i < chars.len()
        invariant
            i <= chars@.len(),
            text@ =~= chars@.take(i as int),
        decreases chars@.len() - i,
    {
        text.push(chars[i]);
        i = i + 1;
    }
    proof {
        assert(chars@.take(i as int) =~= chars@);
    }
    text
}

/// Whether `pattern` stands in `text` at place `at`.
pub open spec fn stands_at(text: Seq<char>, pattern: Seq<char>, at: int) -> bool {
    0 <= at && at + pattern.len() <= text.len() && text.subrange(at, at + pattern.len()) == pattern
}

fn matches_at(text: &Vec<char>, pattern: &Vec<char>, at: usize) -> (r: bool)
    requires
        at <= text@.len(),
    ensures
        r == stands_at(text@, pattern@, at as int),
{
    if pattern.len() > text.len() - at {
        return false;
    }
    let mut i: usize = 0;
    while i < pattern.len()
        invariant
            i <= pattern@.len(),
            at + pattern@.len() <= text.len(),
            forall|k: int| 0 <= k < i ==> #[trigger] pattern@[k] == text@[at + k],
        decreases pattern@.len() - i,
    {
        if text[at + i] != pattern[i] {
            proof {
                let part = text@.subrange(at as int, at + pattern@.len());
                assert(part[i as int] != pattern@[i as int]);
            }
            return false;
        }
        i = i + 1;
    }
    proof {
        assert(text@.subrange(at as int, at + pattern@.len()) =~= pattern@);
    }
    true
}

/// Whether a text holds a pattern anywhere.
pub open spec fn contains_spec(text: Seq<char>, pattern: Seq<char>) -> bool {
    exists|at: int| stands_at(text, pattern, at)
}

/// Whether a text holds a pattern anywhere.
pub fn contains(text: &str, pattern: &str) -> (r: bool)
    ensures
        r == contains_spec(text@, pattern@),
{
    let chars: Vec<char> = chars_of(text);
    let wanted: Vec<char> = chars_of(pattern);
    let mut at: usize = 0;
    loop
        invariant
            at <= chars@.len(),
            chars@ == text@,
            wanted@ == pattern@,
            forall|k: int| 0 <= k < at ==> !#[trigger] stands_at(text@, pattern@, k),
        decreases chars@.len() - at,
    {
        if matches_at(&chars, &wanted, at) {
            return true;
        }
        if at == chars.len() {
            proof {
                assert forall|k: int| !stands_at(text@, pattern@, k) by {}
            }
            return false;
        }
        at = at + 1;
    }
}

/// Whether a text ends with a pattern.
pub fn ends_with(text: &str, pattern: &str) -> (r: bool)
    ensures
        r == stands_at(text@, pattern@, text@.len() - pattern@.len()),
{
    let chars: Vec<char> = chars_of(text);
    let wanted: Vec<char> = chars_of(pattern);
    if wanted.len() > chars.len() {
        return false;
    }
    matches_at(&chars, &wanted, chars.len() - wanted.len())
}

/// A text in which, from the left and without overlap, every occurrence of a pattern is replaced.
pub open spec fn replaced(text: Seq<char>, pattern: Seq<char>, with: Seq<char>) -> Seq<char>
    decreases text.len(),
{
    if text.len() == 0 || pattern.len() == 0 {
        text
    } else if stands_at(text, pattern, 0) {
        with + replaced(text.skip(pattern.len() as int), pattern, with)
    } else {
        seq![text[0]] + replaced(text.skip(1), pattern, with)
    }
}

/// Replaces every occurrence of a pattern.
pub fn replace_all(text: &Vec<char>, pattern: &Vec<char>, with: &Vec<char>) -> (r: Vec<char>)
    requires
        pattern@.len() > 0,
    ensures
        r@ == replaced(text@, pattern@, with@),
{
    let mut out: Vec<char> = Vec::new();
    let mut at: usize = 0;
    proof {
        assert(text@.skip(0) =~= text@);
        assert(out@ + replaced(text@.skip(0), pattern@, with@) =~= replaced(text@, pattern@, with@));
    }
    while at < text.len()
        invariant
            at <= text@.len(),
            pattern@.len() > 0,
            replaced(text@, pattern@, with@) == out@ + replaced(
                text@.skip(at as int),
                pattern@,
                with@,
            ),
        decreases text@.len() - at,
    {
        let ghost rest = text@.skip(at as int);
        let ghost before = out@;
        proof {
            assert(stands_at(rest, pattern@, 0) == stands_at(text@, pattern@, at as int)) by {
                if at + pattern@.len() <= text@.len() {
                    assert(rest.subrange(0, pattern@.len() as int) =~= text@.subrange(
                        at as int,
                        at + pattern@.len(),
                    ));
                }
            }
        }
        if matches_at(text, pattern, at) {
            let mut i: usize = 0;
            while i < with.len()
                invariant
                    i <= with@.len(),
                    out@ =~= before + with@.take(i as int),
                decreases with@.len() - i,
            {
                out.push(with[i]);
                i = i + 1;
            }
            proof {
                assert(with@.take(i as int) =~= with@);
                assert(rest.skip(pattern@.len() as int) =~= text@.skip(at + pattern@.len()));
                assert(before + (with@ + replaced(
                    rest.skip(pattern@.len() as int),
                    pattern@,
                    with@,
                )) =~= out@ + replaced(text@.skip(at + pattern@.len()), pattern@, with@));
            }
            at = at + pattern.len();
        } else {
            out.push(text[at]);
            proof {
                assert(rest.skip(1) =~= text@.skip(at + 1));
                assert(before + (seq![rest[0]] + replaced(rest.skip(1), pattern@, with@)) =~= out@
                    + replaced(text@.skip(at + 1), pattern@, with@));
            }
            at = at + 1;
        }
    }
    proof {
        assert(text@.skip(at as int) =~= Seq::empty());
        assert(out@ + Seq::<char>::empty() =~= out@);
    }
    out
}

/// An ASCII character in lower case; any other character stays.
pub open spec fn lower_char(c: char) -> char {
    if 'A' <= c <= 'Z' {
        (c as u32 + 32) as char
    } else {
        c
    }
}

/// A text with its ASCII letters in lower case.
pub open spec fn lowered(text: Seq<char>) -> Seq<char> {
    text.map_values(|c: char| lower_char(c))
}

/// An ASCII character in lower case; any other character stays.
pub fn to_lower(c: char) -> (r: char)
    ensures
        r == lower_char(c),
{
    if 'A' <= c && c <= 'Z' {
        (c as u8 + 32) as char
    } else {
        c
    }
}

/// Puts the ASCII letters of a text in lower case.
pub fn to_ascii_lowercase(text: &str) -> (r: String)
    ensures
        r@ == lowered(text@),
{
    let chars: Vec<char> = chars_of(text);
    let mut out: String = String::new();
    let mut i: usize = 0;
    while i < chars.len()
        invariant
            i <= chars@.len(),
            chars@ == text@,
            out@ =~= lowered(text@.take(i as int)),
        decreases chars@.len() - i,
    {
        out.push(to_lower(chars[i]));
        proof {
            assert(text@.take(i + 1) =~= text@.take(i as int).push(text@[i as int]));
        }
        i = i + 1;
    }
    proof {
        assert(text@.take(i as int) =~= text@);
    }
    out
}

/// Joins two texts.
pub fn joined(first: &str, second: &str) -> (r: String)
    ensures
        r@ == first@ + second@,
{
    let text: String = first.to_owned();
    text.concat(second)
}

/// The number that a text of decimal digits stands for.
pub open spec fn digits_value(text: Seq<char>) -> int
    decreases text.len(),
{
    if text.len() == 0 {
        0
    } else {
        digits_value(text.drop_last()) * 10 + (text.last() as int - '0' as int)
    }
}

/// A number in decimal reads back as the number: it consists of digits alone, at least one, and does
/// not begin with a zero unless it is zero.
pub proof fn law_decimals_read_back(n: nat)
    ensures
        digits_value(decimal(n)) == n,
        decimal(n).len() > 0,
        n > 0 ==> decimal(n)[0] != '0',
        n == 0 ==> decimal(n) == seq!['0'],
        forall|i: int| 0 <= i < decimal(n).len() ==> '0' <= #[trigger] decimal(n)[i] <= '9',
    decreases n,
{
    reveal_with_fuel(digits_value, 2);
    if n < 10 {
        assert(decimal(n).drop_last() =~= Seq::empty());
        assert(decimal(n).last() as int == n + 48);
    } else {
        law_decimals_read_back(n / 10);
        let head = decimal(n / 10);
        let last = digit_char(n % 10);
        assert(last as int == n % 10 + 48);
        assert(decimal(n).drop_last() =~= head);
        assert(decimal(n).last() == last);
        assert forall|i: int| 0 <= i < decimal(n).len() implies '0' <= #[trigger] decimal(n)[i]
            <= '9' by {
            if i < head.len() {
                assert(decimal(n)[i] == head[i]);
            }
        }
        assert(decimal(n)[0] == head[0]);
    }
}

/// Of several objects with one name the last counts, and what no object is called is not found.
pub proof fn law_the_last_of_a_name_counts(
    names: Seq<(String, EntityId)>,
    name: Seq<char>,
    i: int,
)
    requires
        0 <= i < names.len(),
    ensures
        names[i].0@ == name && (forall|k: int|
            i < k < names.len() ==> (#[trigger] names[k]).0@ != name) ==> lookup(names, name)
            == Some(names[i].1),
        (forall|k: int| 0 <= k < names.len() ==> (#[trigger] names[k]).0@ != name) ==> lookup(
            names,
            name,
        ) is None,
    decreases names.len(),
{
    let rest = names.drop_last();
    if names.last().0@ == name {
        assert(names[names.len() - 1].0@ == name);
    } else if i < rest.len() {
        assert forall|k: int| 0 <= k < rest.len() implies #[trigger] rest[k] == names[k] by {}
        law_the_last_of_a_name_counts(rest, name, i);
        if forall|k: int| i < k < names.len() ==> (#[trigger] names[k]).0@ != name {
            assert forall|k: int| i < k < rest.len() implies (#[trigger] rest[k]).0@ != name by {
                assert(names[k].0@ != name);
            }
        }
        if forall|k: int| 0 <= k < names.len() ==> (#[trigger] names[k]).0@ != name {
            assert forall|k: int| 0 <= k < rest.len() implies (#[trigger] rest[k]).0@ != name by {
                assert(names[k].0@ != name);
            }
        }
    } else {
        assert(names[i].0@ != name);
        if forall|k: int| 0 <= k < names.len() ==> (#[trigger] names[k]).0@ != name {
            lemma_not_found(rest, name);
        }
    }
}

proof fn lemma_not_found(names: Seq<(String, EntityId)>, name: Seq<char>)
    requires
        forall|k: int| 0 <= k < names.len() ==> (#[trigger] names[k]).0@ != name,
    ensures
        lookup(names, name) is None,
    decreases names.len(),
{
    if names.len() > 0 {
        let rest = names.drop_last();
        assert forall|k: int| 0 <= k < rest.len() implies (#[trigger] rest[k]).0@ != name by {
            assert(rest[k] == names[k]);
        }
        assert(names[names.len() - 1].0@ != name);
        lemma_not_found(rest, name);
    }
}

/// A text holds a pattern exactly if it is something, the pattern, and something more.
pub proof fn law_a_text_holds_what_it_is_put_together_from(text: Seq<char>, pattern: Seq<char>)
    ensures
        contains_spec(text, pattern) <==> exists|head: Seq<char>, tail: Seq<char>|
            text == #[trigger] (head + pattern + tail),
{
    if contains_spec(text, pattern) {
        let at = choose|at: int| stands_at(text, pattern, at);
        let head = text.take(at);
        let tail = text.skip(at + pattern.len());
        assert(text =~= head + pattern + tail) by {
            assert forall|i: int| at <= i < at + pattern.len() implies text[i] == pattern[i
                - at] by {
                assert(text.subrange(at, at + pattern.len())[i - at] == pattern[i - at]);
            }
        }
    }
    if exists|head: Seq<char>, tail: Seq<char>| text == #[trigger] (head + pattern + tail) {
        let (head, tail) = choose|head: Seq<char>, tail: Seq<char>|
            text == #[trigger] (head + pattern + tail);
        let at = head.len() as int;
        assert(text.subrange(at, at + pattern.len()) =~= pattern);
        assert(stands_at(text, pattern, at));
    }
}

/// A text ends with a pattern exactly if it is something and then the pattern.
pub proof fn law_an_ending_is_what_comes_last(text: Seq<char>, pattern: Seq<char>)
    ensures
        stands_at(text, pattern, text.len() - pattern.len()) <==> exists|head: Seq<char>|
            text == #[trigger] (head + pattern),
{
    let at = text.len() - pattern.len();
    if stands_at(text, pattern, at) {
        let head = text.take(at);
        assert(text =~= head + pattern) by {
            assert forall|i: int| at <= i < text.len() implies text[i] == pattern[i - at] by {
                assert(text.subrange(at, text.len() as int)[i - at] == pattern[i - at]);
            }
        }
    }
    if exists|head: Seq<char>| text == #[trigger] (head + pattern) {
        let head = choose|head: Seq<char>| text == #[trigger] (head + pattern);
        assert(text.subrange(at, text.len() as int) =~= pattern);
    }
}

/// Replacing keeps what comes before the first occurrence of the pattern, puts the other text in its
/// place, and goes on behind it.
pub proof fn law_replacing_goes_from_occurrence_to_occurrence(
    head: Seq<char>,
    pattern: Seq<char>,
    tail: Seq<char>,
    with: Seq<char>,
)
    requires
        pattern.len() > 0,
        forall|k: int| 0 <= k < head.len() ==> !#[trigger] stands_at(head + pattern + tail, pattern, k),
    ensures
        replaced(head + pattern + tail, pattern, with) == head + with + replaced(
            tail,
            pattern,
            with,
        ),
    decreases head.len(),
{
    let text = head + pattern + tail;
    if head.len() == 0 {
        assert(text.subrange(0, pattern.len() as int) =~= pattern);
        assert(text.skip(pattern.len() as int) =~= tail);
        assert(head + with + replaced(tail, pattern, with) =~= with + replaced(
            tail,
            pattern,
            with,
        ));
    } else {
        assert(!stands_at(text, pattern, 0));
        let rest = head.skip(1);
        let shorter = rest + pattern + tail;
        assert(text.skip(1) =~= shorter);
        assert forall|k: int| 0 <= k < rest.len() implies !#[trigger] stands_at(
            shorter,
            pattern,
            k,
        ) by {
            assert(!stands_at(text, pattern, k + 1));
            if stands_at(shorter, pattern, k) {
                assert(text.subrange(k + 1, k + 1 + pattern.len()) =~= shorter.subrange(
                    k,
                    k + pattern.len(),
                ));
            }
        }
        law_replacing_goes_from_occurrence_to_occurrence(rest, pattern, tail, with);
        assert(seq![text[0]] + (rest + with + replaced(tail, pattern, with)) =~= head + with
            + replaced(tail, pattern, with));
    }
}

/// A text that does not hold the pattern stays as it is.
pub proof fn law_nothing_to_replace(text: Seq<char>, pattern: Seq<char>, with: Seq<char>)
    requires
        pattern.len() > 0,
        !contains_spec(text, pattern),
    ensures
        replaced(text, pattern, with) == text,
    decreases text.len(),
{
    if text.len() > 0 {
        assert(!stands_at(text, pattern, 0));
        let rest = text.skip(1);
        if contains_spec(rest, pattern) {
            let k = choose|k: int| stands_at(rest, pattern, k);
            assert(text.subrange(k + 1, k + 1 + pattern.len()) =~= rest.subrange(
                k,
                k + pattern.len(),
            ));
            assert(stands_at(text, pattern, k + 1));
        }
        law_nothing_to_replace(rest, pattern, with);
        assert(seq![text[0]] + rest =~= text);
    }
}

/// Lower case keeps the length and every character but the capital letters of the Latin alphabet,
/// which become their small ones; doing it again changes nothing.
pub proof fn law_lower_case(text: Seq<char>)
    ensures
        lowered(text).len() == text.len(),
        lowered(lowered(text)) == lowered(text),
        forall|i: int|
            0 <= i < text.len() ==> (if 65 <= text[i] as int <= 90 {
                #[trigger] lowered(text)[i] as int == text[i] as int + 32
            } else {
                lowered(text)[i] == text[i]
            }),
{
    assert forall|i: int| 0 <= i < text.len() implies (if 65 <= text[i] as int <= 90 {
        #[trigger] lowered(text)[i] as int == text[i] as int + 32
    } else {
        lowered(text)[i] == text[i]
    }) by {
        assert(lowered(text)[i] == lower_char(text[i]));
    }
    assert(lowered(lowered(text)) =~= lowered(text));
}

} // verus!
