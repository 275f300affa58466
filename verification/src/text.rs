//! Building messages.

use vstd::prelude::*;
use vstd::string::StringExecFns;

verus! {

/// The decimal digits of `n`, most significant first.
pub open spec fn decimal(n: nat) -> Seq<char>
    decreases n,
{
    if n < 10 {
        seq![('0' as int + n) as char]
    } else {
        decimal(n / 10).push(('0' as int + n % 10) as char)
    }
}

fn digit(n: u64) -> (s: &'static str)
    requires
        n < 10,
    ensures
        s@ =~= seq![('0' as int + n) as char],
{
    proof {
        reveal_strlit("0");
        reveal_strlit("1");
        reveal_strlit("2");
        reveal_strlit("3");
        reveal_strlit("4");
        reveal_strlit("5");
        reveal_strlit("6");
        reveal_strlit("7");
        reveal_strlit("8");
        reveal_strlit("9");
    }
    match n {
        0 => "0",
        1 => "1",
        2 => "2",
        3 => "3",
        4 => "4",
        5 => "5",
        6 => "6",
        7 => "7",
        8 => "8",
        _ => "9",
    }
}

/// Appends the decimal digits of `n`.
pub fn append_decimal(s: &mut String, n: u64)
    ensures
        final(s)@ == old(s)@ + decimal(n as nat),
    decreases n,
{
    if n >= 10 {
        append_decimal(s, n / 10);
        let ghost before = s@;
        s.append(digit(n % 10));
        assert(s@ =~= old(s)@ + decimal(n as nat)) by {
            assert(decimal(n as nat) == decimal((n / 10) as nat).push(('0' as int + n % 10) as char));
            assert(before == old(s)@ + decimal((n / 10) as nat));
        }
    } else {
        s.append(digit(n));
    }
}

/// Joins a fixed text and an inserted text.
pub fn join2(head: &str, tail: &str) -> (s: String)
    ensures
        s@ == head@ + tail@,
{
    let mut s = String::from_str(head);
    s.append(tail);
    s
}

/// Joins a fixed text, an inserted text and a fixed text.
pub fn join3(head: &str, middle: &str, tail: &str) -> (s: String)
    ensures
        s@ == head@ + middle@ + tail@,
{
    let mut s = String::new();
    s.append(head);
    s.append(middle);
    s.append(tail);
    assert(s@ =~= head@ + middle@ + tail@);
    s
}

/// Whether `needle` stands in `text` from position `at`.
pub open spec fn occurs_at(text: Seq<char>, needle: Seq<char>, at: int) -> bool {
    &&& 0 <= at
    &&& at + needle.len() <= text.len()
    &&& text.subrange(at, at + needle.len()) == needle
}

/// Whether `needle` stands somewhere in `text`.
pub open spec fn occurs(text: Seq<char>, needle: Seq<char>) -> bool {
    exists|at: int| #[trigger] occurs_at(text, needle, at)
}

fn characters(text: &str) -> (chars: Vec<char>)
    ensures
        chars@ == text@,
{
    let mut chars: Vec<char> = Vec::new();
    for c in iter: text.chars()
        invariant
            chars@ == iter.seq().take(iter.index()),
            iter.seq() == text@,
    {
        chars.push(c);
        assert(chars@ =~= iter.seq().take(iter.index() + 1));
    }
    assert(chars@ =~= text@);
    chars
}

/// Whether `needle` stands somewhere in `text`.
pub fn contains(text: &str, needle: &str) -> (found: bool)
    ensures
        found <==> occurs(text@, needle@),
{
    let hay = characters(text);
    let pattern = characters(needle);
    if pattern.len() > hay.len() {
        return false;
    }
    let last: usize = hay.len() - pattern.len();
    let mut at: usize = 0;
    while at <= last
        invariant
            hay@ == text@,
            pattern@ == needle@,
            pattern.len() <= hay.len(),
            last == hay.len() - pattern.len(),
            at <= last + 1,
            forall|i: int| 0 <= i < at ==> !#[trigger] occurs_at(text@, needle@, i),
        decreases last + 1 - at,
    {
        let mut matched: usize = 0;
        while matched < pattern.len() && hay[at + matched] == pattern[matched]
            invariant
                at + pattern.len() <= hay.len(),
                matched <= pattern.len(),
                forall|i: int| 0 <= i < matched ==> hay@[at + i] == pattern@[i],
            decreases pattern.len() - matched,
        {
            matched = matched + 1;
        }
        if matched == pattern.len() {
            assert(text@.subrange(at as int, at + needle@.len()) =~= needle@);
            assert(occurs_at(text@, needle@, at as int));
            return true;
        }
        proof {
            if occurs_at(text@, needle@, at as int) {
                let window = text@.subrange(at as int, at + needle@.len());
                assert(window[matched as int] == hay@[at + matched]);
                assert(window[matched as int] == pattern@[matched as int]);
            }
        }
        at = at + 1;
    }
    false
}

/// Digits are written behind each other: the text of ten times a number plus a digit is the
/// text of the number with the digit behind it.
pub proof fn lemma_digits_follow_each_other(n: nat, d: nat)
    requires
        d < 10,
    ensures
        decimal(d) == seq![('0' as int + d) as char],
        n > 0 ==> decimal(10 * n + d) == decimal(n).push(('0' as int + d) as char),
        decimal(n).len() > 0,
    decreases n,
{
    if n > 0 {
        assert((10 * n + d) / 10 == n && (10 * n + d) % 10 == d);
    }
}

/// A text stands in another one exactly if that one can be parted into what is before it,
/// itself and what is after it.
pub proof fn lemma_what_it_is_to_occur(whole: Seq<char>, needle: Seq<char>)
    ensures
        occurs(whole, needle) <==> exists|before: Seq<char>, after: Seq<char>|
            whole == #[trigger] (before + needle + after),
{
    if occurs(whole, needle) {
        let at = choose|at: int| #[trigger] occurs_at(whole, needle, at);
        let before = whole.take(at);
        let after = whole.skip(at + needle.len());
        assert forall|i: int| 0 <= i < needle.len() implies whole[at + i] == needle[i] by {
            assert(whole.subrange(at, at + needle.len())[i] == whole[at + i]);
        }
        assert(whole =~= before + needle + after);
    }
    if exists|before: Seq<char>, after: Seq<char>| whole == #[trigger] (before + needle + after) {
        let (before, after) = choose|before: Seq<char>, after: Seq<char>|
            whole == #[trigger] (before + needle + after);
        let at = before.len() as int;
        assert(whole.subrange(at, at + needle.len()) =~= needle);
        assert(occurs_at(whole, needle, at));
    }
}

} // verus!
