//! Small string helpers: trusted wrappers around two std string
//! operations and around the regex engine, and the verified conversion of
//! Pascal-case names to upper snake case used when rendering token kinds.

use vstd::prelude::*;

verus! {

/// Relies on std's `PartialEq` for `str`: equality of the character
/// sequences.
#[verifier::external_body]
pub fn str_eq(a: &str, b: &str) -> (r: bool)
    ensures
        r == (a@ == b@),
{
    a == b
}

/// Relies on std's `String::push`: appends one character.
#[verifier::external_body]
pub fn push_char(s: &mut String, c: char)
    ensures
        final(s)@ == old(s)@.push(c),
{
    s.push(c)
}

/// Whether the regex engine accepts a pattern.
pub uninterp spec fn regex_compiles(pattern: Seq<char>) -> bool;

/// The non-overlapping, leftmost-first matches of a pattern in a text, in
/// order, as found by the regex engine.
pub uninterp spec fn regex_found(pattern: Seq<char>, text: Seq<char>) -> Seq<Seq<char>>;

/// Relies on `regex::Regex::new` (whose success depends on the pattern
/// alone) and `regex::Regex::find_iter` (the non-overlapping,
/// leftmost-first matches, in order).
#[verifier::external_body]
fn regex_find_matches(pattern: &str, text: &str) -> (r: Option<Vec<String>>)
    ensures
        r is Some <==> regex_compiles(pattern@),
        r matches Some(found) ==> found.deep_view() == regex_found(pattern@, text@),
{
    match regex::Regex::new(pattern) {
        Ok(re) => Some(re.find_iter(text).map(|m| m.as_str().to_string()).collect()),
        Err(_) => None,
    }
}

/// The decimal digit character for a value below ten.
pub open spec fn spec_digit_text(d: int) -> char {
    if d == 0 {
        '0'
    } else if d == 1 {
        '1'
    } else if d == 2 {
        '2'
    } else if d == 3 {
        '3'
    } else if d == 4 {
        '4'
    } else if d == 5 {
        '5'
    } else if d == 6 {
        '6'
    } else if d == 7 {
        '7'
    } else if d == 8 {
        '8'
    } else {
        '9'
    }
}

/// The decimal rendering of a natural number.
pub open spec fn spec_nat_text(n: nat) -> Seq<char>
    decreases n,
{
    if n < 10 {
        seq![spec_digit_text(n as int)]
    } else {
        spec_nat_text(n / 10) + seq![spec_digit_text((n % 10) as int)]
    }
}

fn digit_text(d: usize) -> (r: char)
    requires
        d < 10,
    ensures
        r == spec_digit_text(d as int),
{
    if d == 0 {
        '0'
    } else if d == 1 {
        '1'
    } else if d == 2 {
        '2'
    } else if d == 3 {
        '3'
    } else if d == 4 {
        '4'
    } else if d == 5 {
        '5'
    } else if d == 6 {
        '6'
    } else if d == 7 {
        '7'
    } else if d == 8 {
        '8'
    } else {
        '9'
    }
}

/// The decimal rendering of a number, for diagnostics.
pub fn usize_text(n: usize) -> (r: String)
    ensures
        r@ == spec_nat_text(n as nat),
    decreases n,
{
    if n < 10 {
        let mut out = String::new();
        push_char(&mut out, digit_text(n));
        proof {
            assert(out@ =~= spec_nat_text(n as nat));
        }
        out
    } else {
        let mut out = usize_text(n / 10);
        push_char(&mut out, digit_text(n % 10));
        proof {
            assert(out@ =~= spec_nat_text(n as nat));
        }
        out
    }
}

/// Lines joined by single newlines, with none at the end.
pub open spec fn spec_join_lines(lines: Seq<Seq<char>>) -> Seq<char>
    decreases lines.len(),
{
    if lines.len() == 0 {
        Seq::empty()
    } else if lines.len() == 1 {
        lines[0]
    } else {
        spec_join_lines(lines.drop_last()) + seq!['\n'] + lines.last()
    }
}

/// Joins rendered lines with newlines, as the reporting surfaces print
/// them.
pub fn join_lines(lines: &Vec<String>) -> (r: String)
    ensures
        r@ == spec_join_lines(lines.deep_view()),
{
    let ghost all = lines.deep_view();
    let mut out = String::new();
    let mut i: usize = 0;
    while i < lines.len()
        invariant
            all == lines.deep_view(),
            0 <= i <= lines.len(),
            all.len() == lines.len(),
            out@ == spec_join_lines(all.subrange(0, i as int)),
        decreases lines.len() - i,
    {
        if i > 0 {
            push_char(&mut out, '\n');
        }
        out.append(lines[i].as_str());
        proof {
            assert(all[i as int] == lines[i as int]@);
            assert(all.subrange(0, i + 1int).drop_last() == all.subrange(0, i as int));
            assert(all.subrange(0, i + 1int).last() == all[i as int]);
            assert(out@ =~= spec_join_lines(all.subrange(0, i + 1int)));
        }
        i += 1;
    }
    proof {
        assert(all.subrange(0, lines@.len() as int) == all);
    }
    out
}

/// The upper-case form of an ASCII lower-case letter; other characters
/// are unchanged.
pub open spec fn spec_upper_char(c: char) -> char {
    match c {
        'a' => 'A',
        'b' => 'B',
        'c' => 'C',
        'd' => 'D',
        'e' => 'E',
        'f' => 'F',
        'g' => 'G',
        'h' => 'H',
        'i' => 'I',
        'j' => 'J',
        'k' => 'K',
        'l' => 'L',
        'm' => 'M',
        'n' => 'N',
        'o' => 'O',
        'p' => 'P',
        'q' => 'Q',
        'r' => 'R',
        's' => 'S',
        't' => 'T',
        'u' => 'U',
        'v' => 'V',
        'w' => 'W',
        'x' => 'X',
        'y' => 'Y',
        'z' => 'Z',
        _ => c,
    }
}

pub open spec fn spec_upper(s: Seq<char>) -> Seq<char> {
    s.map_values(|c: char| spec_upper_char(c))
}

fn upper_char(c: char) -> (r: char)
    ensures
        r == spec_upper_char(c),
{
    match c {
        'a' => 'A',
        'b' => 'B',
        'c' => 'C',
        'd' => 'D',
        'e' => 'E',
        'f' => 'F',
        'g' => 'G',
        'h' => 'H',
        'i' => 'I',
        'j' => 'J',
        'k' => 'K',
        'l' => 'L',
        'm' => 'M',
        'n' => 'N',
        'o' => 'O',
        'p' => 'P',
        'q' => 'Q',
        'r' => 'R',
        's' => 'S',
        't' => 'T',
        'u' => 'U',
        'v' => 'V',
        'w' => 'W',
        'x' => 'X',
        'y' => 'Y',
        'z' => 'Z',
        _ => c,
    }
}

/// Each part upper-cased, joined with underscores.
pub open spec fn spec_upper_snake(parts: Seq<Seq<char>>) -> Seq<char>
    decreases parts.len(),
{
    if parts.len() == 0 {
        Seq::empty()
    } else if parts.len() == 1 {
        spec_upper(parts[0])
    } else {
        spec_upper_snake(parts.drop_last()) + seq!['_'] + spec_upper(parts.last())
    }
}

fn upper_string(part: &String) -> (r: String)
    ensures
        r@ == spec_upper(part@),
{
    let n = part.as_str().unicode_len();
    let mut out = String::new();
    let mut i: usize = 0;
    while i < n
        invariant
            n == part@.len(),
            0 <= i <= n,
            out@ == spec_upper(part@.subrange(0, i as int)),
        decreases n - i,
    {
        let c = part.as_str().get_char(i);
        push_char(&mut out, upper_char(c));
        proof {
            assert(part@.subrange(0, i + 1int).drop_last() == part@.subrange(0, i as int));
            assert(out@ =~= spec_upper(part@.subrange(0, i + 1int)));
        }
        i += 1;
    }
    proof {
        assert(part@.subrange(0, n as int) == part@);
    }
    out
}

/// Converts a Pascal-case name to upper snake case, for example
/// `ExampleValue` to `EXAMPLE_VALUE`: the runs matched by the pattern
/// `[A-Z][a-z]+` are upper-cased and joined with underscores. If the
/// regex engine were to reject the pattern, the input would be returned
/// unchanged.
pub fn pascal_to_upper_case_snake(input: &String) -> (r: String)
    ensures
        regex_compiles("[A-Z][a-z]+"@) ==> r@ == spec_upper_snake(
            regex_found("[A-Z][a-z]+"@, input@),
        ),
        !regex_compiles("[A-Z][a-z]+"@) ==> r@ == input@,
{
    match regex_find_matches("[A-Z][a-z]+", input.as_str()) {
        None => input.clone(),
        Some(parts) => {
            let ghost found = regex_found("[A-Z][a-z]+"@, input@);
            let mut out = String::new();
            let mut i: usize = 0;
            while i < parts.len()
                invariant
                    parts.deep_view() == found,
                    0 <= i <= parts.len(),
                    out@ == spec_upper_snake(found.subrange(0, i as int)),
                decreases parts.len() - i,
            {
                if i > 0 {
                    push_char(&mut out, '_');
                }
                let up = upper_string(&parts[i]);
                out.append(up.as_str());
                proof {
                    assert(parts.deep_view()[i as int] == parts[i as int]@);
                    assert(found.subrange(0, i + 1int).drop_last() == found.subrange(
                        0,
                        i as int,
                    ));
                    assert(found.subrange(0, i + 1int).last() == parts[i as int]@);
                    assert(out@ =~= spec_upper_snake(found.subrange(0, i + 1int)));
                }
                i += 1;
            }
            proof {
                assert(found.subrange(0, parts@.len() as int) == found);
            }
            out
        },
    }
}

} // verus!
