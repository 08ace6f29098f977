//! Text handling: placeholder substitution in advice templates, display-name
//! aliasing, character-exact string comparison and decimal rendering.

use vstd::prelude::*;
use vstd::string::StrSliceExecFns;
use vstd::string::StringExecFns;

verus! {

/// The placeholder marker that advice templates carry where the requester's
/// display name belongs.
pub open spec fn sub_marker() -> Seq<char> {
    seq!['#', '#', '#']
}

/// `s` with every (non-overlapping, left-to-right) occurrence of the
/// placeholder marker replaced by `name`.
pub open spec fn replace_marker(s: Seq<char>, name: Seq<char>) -> Seq<char>
    decreases s.len(),
{
    if s.len() == 0 {
        Seq::<char>::empty()
    } else if s.len() >= 3 && s.subrange(0, 3) == sub_marker() {
        name + replace_marker(s.skip(3), name)
    } else {
        seq![s[0]] + replace_marker(s.skip(1), name)
    }
}

/// Render `template` with the requester's display name substituted for each
/// placeholder marker.
pub fn substitute(template: &str, name: &str) -> (r: String)
    ensures
        r@ == replace_marker(template@, name@),
{
    let n = template.unicode_len();
    let mut out = String::new();
    let mut i: usize = 0;
    proof {
        assert(template@.skip(0) =~= template@);
        assert(Seq::<char>::empty() + replace_marker(template@, name@) =~= replace_marker(
            template@,
            name@,
        ));
    }
    while i < n
        invariant
            i <= n,
            n == template@.len(),
            out@ + replace_marker(template@.skip(i as int), name@) == replace_marker(
                template@,
                name@,
            ),
        decreases n - i,
    {
        let ghost rest = template@.skip(i as int);
        if n - i >= 3 && template.get_char(i) == '#' && template.get_char(i + 1) == '#'
            && template.get_char(i + 2) == '#' {
            proof {
                assert(rest.subrange(0, 3) =~= sub_marker());
                assert(rest.skip(3) =~= template@.skip(i + 3));
                assert(out@ + (name@ + replace_marker(rest.skip(3), name@)) == (out@ + name@)
                    + replace_marker(template@.skip(i + 3), name@));
            }
            out.append(name);
            i = i + 3;
        } else {
            proof {
                if rest.len() >= 3 && rest.subrange(0, 3) == sub_marker() {
                    assert(rest[0] == template@[i as int]);
                    assert(rest[1] == template@[i + 1]);
                    assert(rest[2] == template@[i + 2]);
                    assert(rest.subrange(0, 3)[0] == rest[0]);
                    assert(rest.subrange(0, 3)[1] == rest[1]);
                    assert(rest.subrange(0, 3)[2] == rest[2]);
                    assert(false);
                }
                assert(rest.skip(1) =~= template@.skip(i + 1));
                assert(template@.subrange(i as int, i + 1) =~= seq![template@[i as int]]);
                assert(out@ + (seq![rest[0]] + replace_marker(rest.skip(1), name@)) == (out@
                    + seq![rest[0]]) + replace_marker(template@.skip(i + 1), name@));
            }
            let piece = template.substring_char(i, i + 1);
            out.append(piece);
            i = i + 1;
        }
    }
    proof {
        assert(template@.skip(n as int) =~= Seq::<char>::empty());
        assert(out@ + Seq::<char>::empty() =~= out@);
    }
    out
}

/// Character-for-character equality of two strings.
pub fn str_equal(a: &str, b: &str) -> (r: bool)
    ensures
        r == (a@ == b@),
{
    let an = a.unicode_len();
    let bn = b.unicode_len();
    if an != bn {
        return false;
    }
    let mut i: usize = 0;
    while i < an
        invariant
            i <= an,
            an == a@.len(),
            bn == b@.len(),
            an == bn,
            forall|j: int| 0 <= j < i ==> a@[j] == b@[j],
        decreases an - i,
    {
        if a.get_char(i) != b.get_char(i) {
            return false;
        }
        i = i + 1;
    }
    proof {
        assert(a@ =~= b@);
    }
    true
}

/// The fixed alias table: certain raw display names map to alternate names,
/// every other name passes through unchanged.
pub open spec fn resolve_alias_spec(s: Seq<char>) -> Seq<char> {
    if s == "Kai' Sa"@ {
        "Aether"@
    } else if s == "Skrublyfe"@ {
        "Logan"@
    } else if s == "Most ok Kat NA"@ {
        "Trevor"@
    } else if s == "cokez11"@ {
        "Hamilton"@
    } else if s == "Kaikalii"@ {
        "Kai"@
    } else if s == "[Mr.Dr.SistrFistr]"@ {
        "Kiernan"@
    } else if s == "Boosted Bonobo"@ {
        "Jimmy"@
    } else {
        s
    }
}

/// Resolve a requester's display name through the alias table.
pub fn resolve_alias<'a>(name: &'a str) -> (r: &'a str)
    ensures
        r@ == resolve_alias_spec(name@),
{
    if str_equal(name, "Kai' Sa") {
        "Aether"
    } else if str_equal(name, "Skrublyfe") {
        "Logan"
    } else if str_equal(name, "Most ok Kat NA") {
        "Trevor"
    } else if str_equal(name, "cokez11") {
        "Hamilton"
    } else if str_equal(name, "Kaikalii") {
        "Kai"
    } else if str_equal(name, "[Mr.Dr.SistrFistr]") {
        "Kiernan"
    } else if str_equal(name, "Boosted Bonobo") {
        "Jimmy"
    } else {
        name
    }
}

/// The decimal digit character for `d`.
pub open spec fn digit_char(d: nat) -> char {
    if d == 0 {
        '0'
    } else if d == 1 {
        '1'
    } else if d == 2 {
        '2'
    } else if d == 3 {
        '3'
    } else if d == 4 {
        '4'
    } else if d == 5 {
        '5'
    } else if d == 6 {
        '6'
    } else if d == 7 {
        '7'
    } else if d == 8 {
        '8'
    } else {
        '9'
    }
}

/// The usual decimal rendering of `n`, most significant digit first, no
/// leading zeros (except for `n == 0` itself).
pub open spec fn decimal_digits(n: nat) -> Seq<char>
    decreases n,
{
    if n < 10 {
        seq![digit_char(n)]
    } else {
        decimal_digits(n / 10).push(digit_char(n % 10))
    }
}

/// The one-character string for a single decimal digit.
fn digit_str(d: u64) -> (r: &'static str)
    requires
        d < 10,
    ensures
        r@ == seq![digit_char(d as nat)],
{
    if d == 0 {
        proof {
            reveal_strlit("0");
            assert("0"@ =~= seq![digit_char(0)]);
        }
        "0"
    } else if d == 1 {
        proof {
            reveal_strlit("1");
            assert("1"@ =~= seq![digit_char(1)]);
        }
        "1"
    } else if d == 2 {
        proof {
            reveal_strlit("2");
            assert("2"@ =~= seq![digit_char(2)]);
        }
        "2"
    } else if d == 3 {
        proof {
            reveal_strlit("3");
            assert("3"@ =~= seq![digit_char(3)]);
        }
        "3"
    } else if d == 4 {
        proof {
            reveal_strlit("4");
            assert("4"@ =~= seq![digit_char(4)]);
        }
        "4"
    } else if d == 5 {
        proof {
            reveal_strlit("5");
            assert("5"@ =~= seq![digit_char(5)]);
        }
        "5"
    } else if d == 6 {
        proof {
            reveal_strlit("6");
            assert("6"@ =~= seq![digit_char(6)]);
        }
        "6"
    } else if d == 7 {
        proof {
            reveal_strlit("7");
            assert("7"@ =~= seq![digit_char(7)]);
        }
        "7"
    } else if d == 8 {
        proof {
            reveal_strlit("8");
            assert("8"@ =~= seq![digit_char(8)]);
        }
        "8"
    } else {
        proof {
            reveal_strlit("9");
            assert("9"@ =~= seq![digit_char(9)]);
        }
        "9"
    }
}

/// Render `n` in decimal.
pub fn decimal_string(n: u64) -> (r: String)
    ensures
        r@ == decimal_digits(n as nat),
    decreases n,
{
    if n < 10 {
        String::from_str(digit_str(n))
    } else {
        proof {
            assert(n / 10 < n);
        }
        let mut s = decimal_string(n / 10);
        s.append(digit_str(n % 10));
        proof {
            assert(decimal_digits((n / 10) as nat) + seq![digit_char((n % 10) as nat)]
                =~= decimal_digits((n / 10) as nat).push(digit_char((n % 10) as nat)));
        }
        s
    }
}

} // verus!
