//! The display-address grammar `[hostname] ":" display ["." screen]`: parsing,
//! formatting, and the proof that formatting a parsed address reproduces the
//! input when its numeric segments are written canonically.

use vstd::prelude::*;
use vstd::string::StrSliceExecFns;
use vstd::string::StringExecFns;

verus! {

/// A parsed display address: which machine, which display, and optionally
/// which screen. The absence of a screen is kept distinct from screen 0 so
/// that formatting reproduces the parsed text exactly.
pub struct Display {
    pub hostname: Option<String>,
    pub display: u16,
    pub screen: Option<u16>,
}

/// The mathematical value of a [`Display`]: the hostname as a character
/// sequence, the display number, and the optional screen number.
pub struct DisplayView {
    pub hostname: Option<Seq<char>>,
    pub display: u16,
    pub screen: Option<u16>,
}

impl View for Display {
    type V = DisplayView;

    open spec fn view(&self) -> DisplayView {
        (DisplayView {
            hostname: match self.hostname {
                Option::Some(h) => Option::Some(h@),
                Option::None => Option::None,
            },
            display: self.display,
            screen: self.screen,
        })
    }
}

/// Errors of address resolution: the supplied text does not follow the
/// grammar, or no address was supplied at all.
#[derive(Debug, PartialEq, Eq, Structural)]
pub enum DisplayError {
    InvalidDisplayFormat,
    DisplayNotSet,
}

/// The index of the first occurrence of `c` in `s`, or -1 when `c` does not
/// occur.
pub open spec fn first_index_of(s: Seq<char>, c: char) -> int
    decreases s.len(),
{
    if s.len() == 0 {
        -1
    } else if s[0] == c {
        0
    } else {
        let r = first_index_of(s.skip(1), c);
        if r < 0 {
            -1
        } else {
            r + 1
        }
    }
}

/// Whether `c` is a decimal digit.
pub open spec fn is_digit(c: char) -> bool {
    48 <= c as int <= 57
}

/// The numeric value of a digit character.
pub open spec fn digit_val(c: char) -> int {
    c as int - 48
}

/// The digit character for a value `0 <= d <= 9`.
pub open spec fn digit_char(d: int) -> char {
    ((48 + d) as u8) as char
}

/// Whether `s` is a non-empty run of decimal digits.
pub open spec fn all_digits(s: Seq<char>) -> bool {
    s.len() > 0 && forall|j: int| 0 <= j < s.len() ==> is_digit(#[trigger] s[j])
}

/// The value of a most-significant-first digit sequence.
pub open spec fn dec_value(s: Seq<char>) -> int
    decreases s.len(),
{
    if s.len() == 0 {
        0
    } else {
        dec_value(s.drop_last()) * 10 + digit_val(s.last())
    }
}

/// Whether `s` is a digit run denoting a value that fits an unsigned 16-bit
/// integer.
pub open spec fn valid_u16_digits(s: Seq<char>) -> bool {
    all_digits(s) && 0 <= dec_value(s) <= 65535
}

/// The canonical decimal digit sequence of `n >= 0`.
pub open spec fn spec_digits_of(n: int) -> Seq<char>
    decreases n,
{
    if n < 10 {
        seq![digit_char(n)]
    } else {
        spec_digits_of(n / 10) + seq![digit_char(n % 10)]
    }
}

/// The index of the colon that separates hostname from display number.
pub open spec fn colon_index(s: Seq<char>) -> int {
    first_index_of(s, ':')
}

/// The text after the colon: display number and optional screen part.
pub open spec fn after_colon(s: Seq<char>) -> Seq<char> {
    s.skip(colon_index(s) + 1)
}

/// The index, within [`after_colon`], of the dot that starts the screen part.
pub open spec fn dot_index(s: Seq<char>) -> int {
    first_index_of(after_colon(s), '.')
}

/// The digit run of the display number.
pub open spec fn display_segment(s: Seq<char>) -> Seq<char> {
    if dot_index(s) < 0 {
        after_colon(s)
    } else {
        after_colon(s).take(dot_index(s))
    }
}

/// The digit run of the screen number, meaningful when a dot is present.
pub open spec fn screen_segment(s: Seq<char>) -> Seq<char> {
    after_colon(s).skip(dot_index(s) + 1)
}

/// The display-address grammar: text before the first colon is the optional
/// hostname (empty means none); the display number is a mandatory digit run;
/// a dot, when present, must be followed by a digit run naming the screen.
/// `None` is a format error: no colon, an empty or non-numeric display or
/// screen segment, or a segment that does not fit 16 bits.
pub open spec fn spec_parse(s: Seq<char>) -> Option<DisplayView> {
    if colon_index(s) < 0 {
        Option::None
    } else if !valid_u16_digits(display_segment(s)) {
        Option::None
    } else if dot_index(s) >= 0 && !valid_u16_digits(screen_segment(s)) {
        Option::None
    } else {
        Option::Some(
            (DisplayView {
                hostname: if colon_index(s) == 0 {
                    Option::None
                } else {
                    Option::Some(s.take(colon_index(s)))
                },
                display: dec_value(display_segment(s)) as u16,
                screen: if dot_index(s) < 0 {
                    Option::None
                } else {
                    Option::Some(dec_value(screen_segment(s)) as u16)
                },
            }),
        )
    }
}

/// The exact syntactic inverse of the grammar: hostname (or nothing), a
/// colon, the display number in canonical decimal, and the screen part only
/// when it is present.
pub open spec fn spec_format(v: DisplayView) -> Seq<char> {
    let host = match v.hostname {
        Option::Some(h) => h,
        Option::None => Seq::<char>::empty(),
    };
    let screen = match v.screen {
        Option::Some(n) => seq!['.'] + spec_digits_of(n as int),
        Option::None => Seq::<char>::empty(),
    };
    host + seq![':'] + spec_digits_of(v.display as int) + screen
}

/// Characterizes [`first_index_of`]: the result is the first position of `c`,
/// or -1 when `c` is absent.
pub proof fn lemma_first_index_of(s: Seq<char>, c: char)
    ensures
        -1 <= first_index_of(s, c) < s.len(),
        first_index_of(s, c) == -1 ==> forall|j: int| 0 <= j < s.len() ==> s[j] != c,
        first_index_of(s, c) >= 0 ==> {
            let r = first_index_of(s, c);
            &&& r < s.len()
            &&& s[r] == c
            &&& forall|j: int| 0 <= j < r ==> s[j] != c
        },
    decreases s.len(),
{
    if s.len() == 0 {
    } else if s[0] == c {
    } else {
        lemma_first_index_of(s.skip(1), c);
        let r = first_index_of(s.skip(1), c);
        if r < 0 {
            assert forall|j: int| 0 <= j < s.len() implies s[j] != c by {
                if j > 0 {
                    assert(s.skip(1)[j - 1] == s[j]);
                }
            }
        } else {
            assert(s[r + 1] == s.skip(1)[r]);
            assert forall|j: int| 0 <= j < r + 1 implies s[j] != c by {
                if j > 0 {
                    assert(s.skip(1)[j - 1] == s[j]);
                }
            }
        }
    }
}

/// The converse direction: a position that holds `c`, with no earlier one,
/// is the first index.
pub proof fn lemma_first_index_at(s: Seq<char>, c: char, i: int)
    requires
        0 <= i < s.len(),
        s[i] == c,
        forall|j: int| 0 <= j < i ==> s[j] != c,
    ensures
        first_index_of(s, c) == i,
{
    lemma_first_index_of(s, c);
    let r = first_index_of(s, c);
    if r == -1 {
        assert(s[i] != c);
    } else if r < i {
        assert(s[r] != c);
    } else if r > i {
        assert(s[i] != c);
    }
}

/// A digit sequence has a non-negative value.
pub proof fn lemma_dec_value_nonneg(s: Seq<char>)
    requires
        forall|j: int| 0 <= j < s.len() ==> is_digit(#[trigger] s[j]),
    ensures
        dec_value(s) >= 0,
    decreases s.len(),
{
    if s.len() > 0 {
        lemma_dec_value_nonneg(s.drop_last());
    }
}

/// A digit sequence that does not start with '0' has a positive value.
pub proof fn lemma_dec_value_pos(s: Seq<char>)
    requires
        all_digits(s),
        s[0] != '0',
    ensures
        dec_value(s) >= 1,
    decreases s.len(),
{
    if s.len() == 1 {
        assert(dec_value(s.drop_last()) == 0);
        assert(digit_val(s[0]) >= 1);
    } else {
        let head = s.drop_last();
        assert(forall|j: int| 0 <= j < head.len() ==> head[j] == s[j]);
        lemma_dec_value_pos(head);
        assert(is_digit(s[s.len() - 1]));
        assert(dec_value(s) == dec_value(head) * 10 + digit_val(s.last()));
    }
}

/// Extending a digit sequence can only raise its value.
pub proof fn lemma_dec_value_prefix(s: Seq<char>, k: int)
    requires
        forall|j: int| 0 <= j < s.len() ==> is_digit(#[trigger] s[j]),
        0 <= k <= s.len(),
    ensures
        dec_value(s.take(k)) <= dec_value(s),
    decreases s.len() - k,
{
    if k == s.len() {
        assert(s.take(k) =~= s);
    } else {
        lemma_dec_value_prefix(s, k + 1);
        let t = s.take(k + 1);
        assert(t.drop_last() =~= s.take(k));
        assert(dec_value(t) == dec_value(s.take(k)) * 10 + digit_val(s[k]));
        lemma_dec_value_nonneg(s.take(k));
    }
}

/// Formatting is the inverse of evaluation on canonical digit sequences:
/// a digit run with no leading zero is reproduced exactly by
/// [`spec_digits_of`] applied to its value.
pub proof fn lemma_canonical_digits(s: Seq<char>)
    requires
        all_digits(s),
        s.len() == 1 || s[0] != '0',
    ensures
        spec_digits_of(dec_value(s)) =~= s,
    decreases s.len(),
{
    lemma_dec_value_nonneg(s);
    if s.len() == 1 {
        let d = digit_val(s[0]);
        assert(0 <= d <= 9);
        assert(dec_value(s.drop_last()) == 0);
        assert(dec_value(s) == d);
        assert(digit_char(d) == s[0]);
        assert(spec_digits_of(d) == seq![digit_char(d)]);
    } else {
        let head = s.drop_last();
        let v = dec_value(head);
        let d = digit_val(s.last());
        assert(forall|j: int| 0 <= j < head.len() ==> head[j] == s[j]);
        assert(is_digit(s[s.len() - 1]));
        assert(digit_char(d) == s.last());
        lemma_dec_value_pos(head);
        lemma_canonical_digits(head);
        assert(dec_value(s) == v * 10 + d);
        assert(v >= 1);
        assert(v * 10 >= 10) by (nonlinear_arith)
            requires
                v >= 1,
        ;
        assert((v * 10 + d) / 10 == v && (v * 10 + d) % 10 == d) by (nonlinear_arith)
            requires
                0 <= d <= 9,
        ;
        assert(spec_digits_of(dec_value(s)) == spec_digits_of(v) + seq![digit_char(d)]);
        assert(spec_digits_of(dec_value(s)) =~= s);
    }
}

/// Every malformed display string is rejected: one with no colon, one whose
/// display segment is empty, non-numeric or too large, and one whose dot is
/// followed by an empty, non-numeric or too large screen segment.
pub proof fn lemma_malformed_rejected(s: Seq<char>)
    requires
        colon_index(s) < 0 || !valid_u16_digits(display_segment(s)) || (dot_index(s) >= 0
            && !valid_u16_digits(screen_segment(s))),
    ensures
        spec_parse(s) is None,
{
}

/// Parse-then-format round trip: a string the grammar accepts is reproduced
/// exactly by formatting the parsed address, provided its numeric segments
/// are canonical (no leading zeros). A string such as one whose display
/// segment starts with a redundant '0' parses to the same address as its
/// canonical spelling, so only the canonical spelling can be reproduced.
#[verifier::rlimit(50)]
pub proof fn lemma_parse_then_format(s: Seq<char>)
    requires
        spec_parse(s) is Some,
        display_segment(s).len() == 1 || display_segment(s)[0] != '0',
        dot_index(s) >= 0 ==> screen_segment(s).len() == 1 || screen_segment(s)[0] != '0',
    ensures
        spec_format(spec_parse(s).unwrap()) =~= s,
{
    let v = spec_parse(s).unwrap();
    let ci = colon_index(s);
    let rest = after_colon(s);
    let di = dot_index(s);
    lemma_first_index_of(s, ':');
    lemma_first_index_of(rest, '.');
    lemma_dec_value_nonneg(display_segment(s));
    lemma_canonical_digits(display_segment(s));
    assert(v.display as int == dec_value(display_segment(s)));
    let host = match v.hostname {
        Option::Some(h) => h,
        Option::None => Seq::<char>::empty(),
    };
    assert(host =~= s.take(ci));
    if di < 0 {
        assert(display_segment(s) == rest);
        assert(spec_format(v) =~= s.take(ci) + seq![':'] + rest);
        assert(spec_format(v) =~= s);
    } else {
        lemma_dec_value_nonneg(screen_segment(s));
        lemma_canonical_digits(screen_segment(s));
        assert(v.screen == Option::Some(dec_value(screen_segment(s)) as u16));
        assert(spec_format(v) =~= s.take(ci) + seq![':'] + rest.take(di) + seq!['.'] + rest.skip(
            di + 1,
        ));
        assert(rest[di] == '.');
        assert(rest =~= rest.take(di) + seq!['.'] + rest.skip(di + 1));
        assert(spec_format(v) =~= s);
    }
}

/// Appends the digit character of `d`.
fn push_digit(out: &mut String, d: u16)
    requires
        d <= 9,
    ensures
        final(out)@ == old(out)@ + seq![digit_char(d as int)],
{
    proof {
        reveal_strlit("0");
        reveal_strlit("1");
        reveal_strlit("2");
        reveal_strlit("3");
        reveal_strlit("4");
        reveal_strlit("5");
        reveal_strlit("6");
        reveal_strlit("7");
        reveal_strlit("8");
        reveal_strlit("9");
    }
    match d {
        0 => out.append("0"),
        1 => out.append("1"),
        2 => out.append("2"),
        3 => out.append("3"),
        4 => out.append("4"),
        5 => out.append("5"),
        6 => out.append("6"),
        7 => out.append("7"),
        8 => out.append("8"),
        _ => out.append("9"),
    }
}

/// Appends the canonical decimal digits of `n`.
fn push_u16_digits(out: &mut String, n: u16)
    ensures
        final(out)@ == old(out)@ + spec_digits_of(n as int),
    decreases n,
{
    if n >= 10 {
        push_u16_digits(out, n / 10);
    }
    push_digit(out, n % 10);
    proof {
        if n >= 10 {
            assert(old(out)@ + spec_digits_of((n / 10) as int) + seq![
                digit_char((n % 10) as int),
            ] =~= old(out)@ + spec_digits_of(n as int));
        }
    }
}

impl Display {
    /// Builds an address from its parts.
    pub fn new(hostname: Option<String>, display: u16, screen: Option<u16>) -> (r: Self)
        ensures
            r@ == (DisplayView {
                hostname: match hostname {
                    Option::Some(h) => Option::Some(h@),
                    Option::None => Option::None,
                },
                display: display,
                screen: screen,
            }),
    {
        Self { hostname, display, screen }
    }

    /// Parses a display string against the grammar; every rejected string is
    /// a format error.
    pub fn from_str(s: &str) -> (r: Result<Self, DisplayError>)
        ensures
            match r {
                Result::Ok(d) => spec_parse(s@) == Option::Some(d@),
                Result::Err(e) => spec_parse(s@) is None && e == DisplayError::InvalidDisplayFormat,
            },
    {
        let len = s.unicode_len();
        let mut i: usize = 0;
        while i < len && s.get_char(i) != ':'
            invariant
                len == s@.len(),
                i <= len,
                forall|j: int| 0 <= j < i ==> s@[j] != ':',
            decreases len - i,
        {
            i += 1;
        }
        if i == len {
            proof {
                lemma_first_index_of(s@, ':');
            }
            return Result::Err(DisplayError::InvalidDisplayFormat);
        }
        let ci = i;
        proof {
            lemma_first_index_at(s@, ':', ci as int);
        }
        let hostname: Option<String> = if ci == 0 {
            Option::None
        } else {
            Option::Some(s.substring_char(0, ci).to_owned())
        };
        // find the dot that starts the screen part, after the colon
        let mut k: usize = ci + 1;
        while k < len && s.get_char(k) != '.'
            invariant
                len == s@.len(),
                ci < len,
                ci + 1 <= k <= len,
                forall|j: int| ci + 1 <= j < k ==> s@[j] != '.',
            decreases len - k,
        {
            k += 1;
        }
        let dot: Option<usize> = if k < len {
            Option::Some(k)
        } else {
            Option::None
        };
        proof {
            let rest = after_colon(s@);
            assert(rest.len() == len - ci - 1);
            match dot {
                Option::Some(dk) => {
                    assert(rest[dk - ci - 1] == s@[dk as int]);
                    assert forall|j: int| 0 <= j < dk - ci - 1 implies rest[j] != '.' by {
                        assert(rest[j] == s@[ci + 1 + j]);
                    }
                    lemma_first_index_at(rest, '.', dk - ci - 1);
                },
                Option::None => {
                    assert forall|j: int| 0 <= j < rest.len() implies rest[j] != '.' by {
                        assert(rest[j] == s@[ci + 1 + j]);
                    }
                    lemma_first_index_of(rest, '.');
                },
            }
        }
        let display_end = match dot {
            Option::Some(dk) => dk,
            Option::None => len,
        };
        proof {
            assert(display_segment(s@) =~= s@.subrange(ci + 1, display_end as int));
        }
        let display = match parse_u16_segment(s, ci + 1, display_end) {
            Option::Some(v) => v,
            Option::None => {
                return Result::Err(DisplayError::InvalidDisplayFormat);
            },
        };
        let screen = match dot {
            Option::Some(dk) => {
                proof {
                    assert(screen_segment(s@) =~= s@.subrange(dk + 1, len as int));
                }
                match parse_u16_segment(s, dk + 1, len) {
                    Option::Some(v) => Option::Some(v),
                    Option::None => {
                        return Result::Err(DisplayError::InvalidDisplayFormat);
                    },
                }
            },
            Option::None => Option::None,
        };
        let result = Self { hostname, display, screen };
        proof {
            let pv = spec_parse(s@).unwrap();
            assert(spec_parse(s@) is Some);
            match &result.hostname {
                Option::Some(h) => {
                    assert(h@ =~= s@.take(ci as int));
                    assert(result@.hostname == pv.hostname);
                },
                Option::None => {
                    assert(result@.hostname == pv.hostname);
                },
            }
            assert(result@.display == pv.display);
            assert(result@.screen == pv.screen);
            assert(result@ == pv);
        }
        Result::Ok(result)
    }

    /// Formats the address as the exact inverse of the grammar.
    pub fn format(&self) -> (r: String)
        ensures
            r@ == spec_format(self@),
    {
        let mut out = String::new();
        match &self.hostname {
            Option::Some(h) => out.append(h.as_str()),
            Option::None => (),
        }
        proof {
            reveal_strlit(":");
            reveal_strlit(".");
        }
        out.append(":");
        push_u16_digits(&mut out, self.display);
        match self.screen {
            Option::Some(n) => {
                out.append(".");
                push_u16_digits(&mut out, n);
            },
            Option::None => (),
        }
        proof {
            assert(out@ =~= spec_format(self@));
        }
        out
    }
}

impl Default for Display {
    /// The default address: no hostname, display 0, no screen.
    fn default() -> (r: Self)
        ensures
            r@ == (DisplayView { hostname: Option::None, display: 0u16, screen: Option::None }),
    {
        Display { hostname: Option::None, display: 0, screen: Option::None }
    }
}

/// Parses the characters of `s` between `from` and `to` as an unsigned
/// 16-bit decimal number; `None` exactly when that range is not a digit run
/// with a value that fits.
fn parse_u16_segment(s: &str, from: usize, to: usize) -> (r: Option<u16>)
    requires
        from <= to <= s@.len(),
    ensures
        match r {
            Option::Some(v) => valid_u16_digits(s@.subrange(from as int, to as int)) && v as int
                == dec_value(s@.subrange(from as int, to as int)),
            Option::None => !valid_u16_digits(s@.subrange(from as int, to as int)),
        },
{
    let ghost seg = s@.subrange(from as int, to as int);
    if from == to {
        return Option::None;
    }
    let mut acc: u32 = 0;
    let mut i: usize = from;
    while i < to
        invariant
            from <= i <= to <= s@.len(),
            seg == s@.subrange(from as int, to as int),
            forall|j: int| 0 <= j < i - from ==> is_digit(#[trigger] seg[j]),
            acc <= 65535,
            acc as int == dec_value(seg.take(i - from)),
        decreases to - i,
    {
        let c = s.get_char(i);
        let cv = c as u32;
        if cv < 48 || cv > 57 {
            proof {
                assert(seg[i - from] == s@[i as int]);
                assert(!all_digits(seg));
            }
            return Option::None;
        }
        proof {
            assert(seg[i - from] == s@[i as int]);
            assert(seg.take(i - from + 1).drop_last() =~= seg.take(i - from));
        }
        acc = acc * 10 + (cv - 48);
        i += 1;
        if acc > 65535 {
            proof {
                if all_digits(seg) {
                    lemma_dec_value_prefix(seg, i - from);
                    assert(dec_value(seg) > 65535);
                }
            }
            return Option::None;
        }
    }
    proof {
        assert(seg.take(to - from) =~= seg);
    }
    Option::Some(acc as u16)
}

} // verus!
