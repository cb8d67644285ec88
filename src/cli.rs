use vstd::prelude::*;

verus! {

/// Value of `multi` and `divi` when no flag sets them.
pub const DEFAULT_COEFFICIENT: i32 = 3;

/// Whether `c` is an ASCII decimal digit.
pub open spec fn is_digit(c: char) -> bool {
    '0' <= c <= '9'
}

/// Whether every character of `s` is an ASCII decimal digit.
pub open spec fn all_digits(s: Seq<char>) -> bool {
    forall|i: int| 0 <= i < s.len() ==> is_digit(#[trigger] s[i])
}

/// The number written by the decimal digits `s`, most significant first.
pub open spec fn digits_value(s: Seq<char>) -> int
    decreases s.len(),
{
    if s.len() == 0 {
        0
    } else {
        10 * digits_value(s.drop_last()) + (s.last() as int - '0' as int)
    }
}

/// The integer written by `s`: an optional `+` or `-` followed by at least one
/// decimal digit, and nothing else.
pub open spec fn signed_value(s: Seq<char>) -> Option<int> {
    let has_sign = s.len() > 0 && (s[0] == '-' || s[0] == '+');
    let body = if has_sign { s.subrange(1, s.len() as int) } else { s };
    if body.len() > 0 && all_digits(body) {
        if has_sign && s[0] == '-' {
            Some(-digits_value(body))
        } else {
            Some(digits_value(body))
        }
    } else {
        None
    }
}

/// The `i32` written by `s`, or `None` where `s` is not an integer or the
/// integer lies outside the `i32` range.
pub open spec fn i32_value(s: Seq<char>) -> Option<i32> {
    match signed_value(s) {
        Some(v) => if i32::MIN <= v <= i32::MAX {
            Some(v as i32)
        } else {
            None
        },
        None => None,
    }
}

/// Reads a decimal `i32`: an optional sign, then one or more ASCII digits.
pub fn parse_i32(s: &str) -> (r: Option<i32>)
    ensures
        r == i32_value(s@),
{
    let len: usize = s.unicode_len();
    let mut start: usize = 0;
    let mut negative: bool = false;
    if len > 0 {
        let first: char = s.get_char(0);
        if first == '-' {
            negative = true;
            start = 1;
        } else if first == '+' {
            start = 1;
        }
    }
    let ghost body: Seq<char> = s@.subrange(start as int, len as int);
    assert(body == if start == 1 { s@.subrange(1, s@.len() as int) } else { s@ });
    if start == len {
        return None;
    }
    let cap: i64 = 0x8000_0001;
    let mut acc: i64 = 0;
    let mut i: usize = start;
    while i < len
        invariant
            start <= i <= len,
            start < len,
            cap == 0x8000_0001,
            start <= 1,
            start == 1 <==> (s@.len() > 0 && (s@[0] == '-' || s@[0] == '+')),
            negative <==> (start == 1 && s@[0] == '-'),
            body == if start == 1 { s@.subrange(1, s@.len() as int) } else { s@ },
            len == s@.len(),
            body == s@.subrange(start as int, len as int),
            all_digits(s@.subrange(start as int, i as int)),
            digits_value(s@.subrange(start as int, i as int)) >= 0,
            0 <= acc <= cap,
            acc == if digits_value(s@.subrange(start as int, i as int)) < cap {
                digits_value(s@.subrange(start as int, i as int))
            } else {
                cap as int
            },
        decreases len - i,
    {
        let c: char = s.get_char(i);
        if c < '0' || c > '9' {
            assert(body[i - start] == c);
            assert(!is_digit(body[i - start]));
            assert(!all_digits(body));
            return None;
        }
        let d: i64 = (c as u32 - '0' as u32) as i64;
        let ghost prev: Seq<char> = s@.subrange(start as int, i as int);
        let ghost next: Seq<char> = s@.subrange(start as int, i + 1);
        assert(next.drop_last() == prev);
        assert(next.last() == c);
        assert(acc * 10 <= cap * 10) by (nonlinear_arith)
            requires
                acc <= cap,
        ;
        let step: i64 = acc * 10 + d;
        acc = if step > cap { cap } else { step };
        i = i + 1;
    }
    assert(body == s@.subrange(start as int, i as int));
    if negative {
        if acc <= 0x8000_0000 {
            Some((-acc) as i32)
        } else {
            None
        }
    } else if acc <= 0x7fff_ffff {
        Some(acc as i32)
    } else {
        None
    }
}

/// Whether two strings hold the same characters.
fn same_text(a: &str, b: &str) -> (r: bool)
    ensures
        r == (a@ == b@),
{
    let n: usize = a.unicode_len();
    if n != b.unicode_len() {
        return false;
    }
    let mut i: usize = 0;
    while i < n
        invariant
            i <= n,
            n == a@.len(),
            n == b@.len(),
            forall|j: int| 0 <= j < i ==> a@[j] == b@[j],
        decreases n - i,
    {
        if a.get_char(i) != b.get_char(i) {
            return false;
        }
        i = i + 1;
    }
    assert(a@ =~= b@);
    true
}

/// The flag that sets `multi`.
pub open spec fn multi_flag() -> Seq<char> {
    seq!['-', '-', 'm', 'u', 'l', 't', 'i']
}

/// The flag that sets `divi`.
pub open spec fn divi_flag() -> Seq<char> {
    seq!['-', '-', 'd', 'i', 'v', 'i']
}

/// The value a flag takes from the argument after it: the `i32` it holds, or
/// the default where it holds none.
pub open spec fn flag_value(s: Seq<char>) -> i32 {
    match i32_value(s) {
        Some(v) => v,
        None => DEFAULT_COEFFICIENT,
    }
}

/// The values of `multi` and `divi` after scanning `args` from index `i` on,
/// starting from `multi` and `divi`. Each flag consumes the argument after it,
/// if there is one; any other argument is skipped.
pub open spec fn scan_flags(args: Seq<Seq<char>>, i: int, multi: i32, divi: i32) -> (i32, i32)
    decreases args.len() - i,
{
    if i < 0 || i >= args.len() {
        (multi, divi)
    } else if args[i] == multi_flag() {
        if i + 1 < args.len() {
            scan_flags(args, i + 2, flag_value(args[i + 1]), divi)
        } else {
            (multi, divi)
        }
    } else if args[i] == divi_flag() {
        if i + 1 < args.len() {
            scan_flags(args, i + 2, multi, flag_value(args[i + 1]))
        } else {
            (multi, divi)
        }
    } else {
        scan_flags(args, i + 1, multi, divi)
    }
}

/// A `--multi` or `--divi` flag whose next argument is not an `i32` sets its
/// coefficient to the default, and the scan goes on after that argument.
pub proof fn lemma_bad_flag_value_defaults(args: Seq<Seq<char>>, i: int, multi: i32, divi: i32)
    requires
        0 <= i,
        i + 1 < args.len(),
        args[i] == multi_flag() || args[i] == divi_flag(),
        i32_value(args[i + 1]) is None,
    ensures
        args[i] == multi_flag() ==> scan_flags(args, i, multi, divi)
            == scan_flags(args, i + 2, DEFAULT_COEFFICIENT, divi),
        args[i] == divi_flag() ==> scan_flags(args, i, multi, divi)
            == scan_flags(args, i + 2, multi, DEFAULT_COEFFICIENT),
{
    assert(multi_flag() != divi_flag()) by {
        assert(multi_flag().len() != divi_flag().len());
    }
}

/// The inputs of one score computation.
#[derive(Debug, Clone, Copy, PartialEq, Eq, Structural)]
pub struct Settings {
    pub twins: i32,
    pub tpoints: i32,
    pub mdamage: i32,
    pub multi: i32,
    pub divi: i32,
}

/// Why the command-line arguments could not be read.
#[derive(Debug, Clone, Copy, PartialEq, Eq, Structural)]
pub enum ArgsError {
    /// Fewer than three values follow the program name.
    Usage,
    /// The first value is not an `i32`.
    InvalidTwins,
    /// The second value is not an `i32`.
    InvalidTpoints,
    /// The third value is not an `i32`.
    InvalidMdamage,
}

/// The characters of each argument.
pub open spec fn arg_chars(args: Seq<String>) -> Seq<Seq<char>> {
    args.map_values(|a: String| a@)
}

/// The settings that the arguments `args` (the program name first) describe:
/// three required integers, then `--multi` and `--divi` flags anywhere after them.
pub open spec fn settings_of(args: Seq<Seq<char>>) -> Result<Settings, ArgsError> {
    if args.len() < 4 {
        Err(ArgsError::Usage)
    } else {
        match (i32_value(args[1]), i32_value(args[2]), i32_value(args[3])) {
            (None, _, _) => Err(ArgsError::InvalidTwins),
            (Some(_), None, _) => Err(ArgsError::InvalidTpoints),
            (Some(_), Some(_), None) => Err(ArgsError::InvalidMdamage),
            (Some(twins), Some(tpoints), Some(mdamage)) => {
                let (multi, divi) = scan_flags(args, 4, DEFAULT_COEFFICIENT, DEFAULT_COEFFICIENT);
                Ok(Settings { twins, tpoints, mdamage, multi, divi })
            },
        }
    }
}

/// Reads the flag value in `s`, falling back to the default.
fn parse_flag_value(s: &str) -> (r: i32)
    ensures
        r == flag_value(s@),
{
    match parse_i32(s) {
        Some(v) => v,
        None => DEFAULT_COEFFICIENT,
    }
}

/// Reads the command-line arguments, the program name first.
pub fn parse_args(args: &Vec<String>) -> (r: Result<Settings, ArgsError>)
    ensures
        r == settings_of(arg_chars(args@)),
{
    let ghost chars: Seq<Seq<char>> = arg_chars(args@);
    if args.len() < 4 {
        return Err(ArgsError::Usage);
    }
    let twins: i32 = match parse_i32(args[1].as_str()) {
        Some(v) => v,
        None => {
            return Err(ArgsError::InvalidTwins);
        },
    };
    let tpoints: i32 = match parse_i32(args[2].as_str()) {
        Some(v) => v,
        None => {
            return Err(ArgsError::InvalidTpoints);
        },
    };
    let mdamage: i32 = match parse_i32(args[3].as_str()) {
        Some(v) => v,
        None => {
            return Err(ArgsError::InvalidMdamage);
        },
    };
    proof {
        reveal_strlit("--multi");
        reveal_strlit("--divi");
    }
    assert("--multi"@ == multi_flag());
    assert("--divi"@ == divi_flag());
    let mut multi: i32 = DEFAULT_COEFFICIENT;
    let mut divi: i32 = DEFAULT_COEFFICIENT;
    let mut i: usize = 4;
    while i < args.len()
        invariant
            4 <= i <= args.len(),
            chars == arg_chars(args@),
            "--multi"@ == multi_flag(),
            "--divi"@ == divi_flag(),
            scan_flags(chars, i as int, multi, divi)
                == scan_flags(chars, 4, DEFAULT_COEFFICIENT, DEFAULT_COEFFICIENT),
        decreases args.len() - i,
    {
        let arg: &str = args[i].as_str();
        if same_text(arg, "--multi") {
            if i + 1 < args.len() {
                multi = parse_flag_value(args[i + 1].as_str());
                i = i + 2;
            } else {
                i = args.len();
            }
        } else if same_text(arg, "--divi") {
            if i + 1 < args.len() {
                divi = parse_flag_value(args[i + 1].as_str());
                i = i + 2;
            } else {
                i = args.len();
            }
        } else {
            i = i + 1;
        }
    }
    Ok(Settings { twins, tpoints, mdamage, multi, divi })
}

} // verus!
