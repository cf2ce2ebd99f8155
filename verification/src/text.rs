//! Text rendering shared by the diagnostic output: decimal numbers and
//! comparison of names.

use vstd::prelude::*;

verus! {

/// The character that stands for a single decimal digit.
pub open spec fn digit_char(d: nat) -> char {
    if d == 0 {
        '0'
    } else if d == 1 {
        '1'
    } else if d == 2 {
        '2'
    } else if d == 3 {
        '3'
    } else if d == 4 {
        '4'
    } else if d == 5 {
        '5'
    } else if d == 6 {
        '6'
    } else if d == 7 {
        '7'
    } else if d == 8 {
        '8'
    } else {
        '9'
    }
}

/// Decimal notation of a natural number, most significant digit first,
/// without leading zeros.
pub open spec fn decimal(n: nat) -> Seq<char>
    decreases n,
{
    if n < 10 {
        seq![digit_char(n)]
    } else {
        decimal(n / 10).push(digit_char(n % 10))
    }
}

/// Decimal notation of an integer: a minus sign before the digits of a
/// negative number.
pub open spec fn signed_decimal(n: int) -> Seq<char> {
    if n < 0 {
        seq!['-'] + decimal((-n) as nat)
    } else {
        decimal(n as nat)
    }
}

fn digit_text(d: u64) -> (text: &'static str)
    requires
        d < 10,
    ensures
        text@ == seq![digit_char(d as nat)],
{
    proof {
        reveal_strlit("0");
        reveal_strlit("1");
        reveal_strlit("2");
        reveal_strlit("3");
        reveal_strlit("4");
        reveal_strlit("5");
        reveal_strlit("6");
        reveal_strlit("7");
        reveal_strlit("8");
        reveal_strlit("9");
    }
    let text = if d == 0 {
        "0"
    } else if d == 1 {
        "1"
    } else if d == 2 {
        "2"
    } else if d == 3 {
        "3"
    } else if d == 4 {
        "4"
    } else if d == 5 {
        "5"
    } else if d == 6 {
        "6"
    } else if d == 7 {
        "7"
    } else if d == 8 {
        "8"
    } else {
        "9"
    };
    assert(text@ =~= seq![digit_char(d as nat)]);
    text
}

/// Appends the decimal notation of `n` to `out`.
pub fn push_decimal(out: &mut String, n: u64)
    ensures
        final(out)@ == old(out)@ + decimal(n as nat),
    decreases n,
{
    if n >= 10 {
        push_decimal(out, n / 10);
    }
    out.append(digit_text(n % 10));
    proof {
        if n >= 10 {
            assert(old(out)@ + decimal((n / 10) as nat) + seq![digit_char((n % 10) as nat)]
                =~= old(out)@ + decimal(n as nat));
        }
    }
}

/// Appends the decimal notation of the integer `n` to `out`.
pub fn push_signed_decimal(out: &mut String, n: i64)
    ensures
        final(out)@ == old(out)@ + signed_decimal(n as int),
{
    if n < 0 {
        proof {
            reveal_strlit("-");
        }
        out.append("-");
        let magnitude: u64 = if n == i64::MIN {
            9223372036854775808u64
        } else {
            (-n) as u64
        };
        push_decimal(out, magnitude);
        assert(old(out)@ + "-"@ + decimal(magnitude as nat) =~= old(out)@ + signed_decimal(
            n as int,
        ));
    } else {
        push_decimal(out, n as u64);
    }
}

/// The decimal notation of `n` as a string of its own.
pub fn decimal_text(n: u64) -> (text: String)
    ensures
        text@ == decimal(n as nat),
{
    let mut text = String::new();
    push_decimal(&mut text, n);
    assert(Seq::<char>::empty() + decimal(n as nat) =~= decimal(n as nat));
    text
}

/// What a list of strings holds, string by string.
pub open spec fn texts(lines: Seq<String>) -> Seq<Seq<char>> {
    lines.map_values(|line: String| line@)
}

/// Position of the first entry of `names`, from `start` on, that equals
/// `name`; the length of the list where there is none.
pub open spec fn position_from(names: Seq<Seq<char>>, name: Seq<char>, start: int) -> int
    decreases names.len() - start,
{
    if start >= names.len() {
        names.len() as int
    } else if names[start] == name {
        start
    } else {
        position_from(names, name, start + 1)
    }
}

/// Position of the first entry of `names` that equals `name`; the length of
/// the list where there is none.
pub open spec fn position_of(names: Seq<Seq<char>>, name: Seq<char>) -> int {
    position_from(names, name, 0)
}

/// `position_from` points at the first entry that equals the name looked
/// for, or past the end of the list where no entry does.
pub proof fn lemma_position_from(names: Seq<Seq<char>>, name: Seq<char>, start: int)
    requires
        0 <= start <= names.len(),
    ensures
        start <= position_from(names, name, start) <= names.len(),
        position_from(names, name, start) < names.len() ==> names[position_from(
            names,
            name,
            start,
        )] == name,
        forall|k: int| start <= k < position_from(names, name, start) ==> names[k] != name,
    decreases names.len() - start,
{
    if start < names.len() && names[start] != name {
        lemma_position_from(names, name, start + 1);
    }
}

/// A position whose entry equals the name, with no such entry before it, is
/// the one that `position_of` gives; so is the length, where no entry equals
/// the name.
pub proof fn lemma_position_is(names: Seq<Seq<char>>, name: Seq<char>, at: int)
    requires
        0 <= at <= names.len(),
        at < names.len() ==> names[at] == name,
        forall|k: int| 0 <= k < at ==> names[k] != name,
    ensures
        position_of(names, name) == at,
{
    lemma_position_from(names, name, 0);
}

/// Tells whether two pieces of text hold the same characters.
pub fn same_text(left: &str, right: &str) -> (same: bool)
    ensures
        same == (left@ == right@),
{
    let n = left.unicode_len();
    if n != right.unicode_len() {
        return false;
    }
    let mut i: usize = 0;
    while i < n
        invariant
            n == left@.len(),
            n == right@.len(),
            0 <= i <= n,
            forall|k: int| 0 <= k < i ==> left@[k] == right@[k],
        decreases n - i,
    {
        if left.get_char(i) != right.get_char(i) {
            return false;
        }
        i += 1;
    }
    assert(left@ =~= right@);
    true
}

/// Position of the first entry of `names` that holds `name`; the length of
/// the list where there is none.
pub fn find_text(names: &Vec<String>, name: &str) -> (at: usize)
    ensures
        at == position_of(texts(names@), name@),
        at <= names@.len(),
{
    let ghost models = texts(names@);
    let mut i: usize = 0;
    while i < names.len()
        invariant
            0 <= i <= names.len(),
            models == texts(names@),
            forall|k: int| 0 <= k < i ==> models[k] != name@,
        decreases names.len() - i,
    {
        assert(models[i as int] == names@[i as int]@);
        if same_text(names[i].as_str(), name) {
            proof {
                lemma_position_is(models, name@, i as int);
            }
            return i;
        }
        i += 1;
    }
    proof {
        lemma_position_is(models, name@, i as int);
    }
    i
}

} // verus!
