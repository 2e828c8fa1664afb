//! Command-line argument parsing for the bar: its height, its font, and
//! its buttons. Parsing is total over any token list; at least one button
//! is required, or parsing fails.

use vstd::prelude::*;

verus! {

/// The bar's parsed command line.
pub struct Args {
    pub height: u32,
    pub buttons: Vec<ArgButton>,
    pub font: String,
}

/// One `-b <text> <action>` button argument.
pub struct ArgButton {
    pub text: String,
    pub action: String,
}

/// Mathematical model of [`ArgButton`].
#[verifier::ext_equal]
pub ghost struct ArgButtonV {
    pub text: Seq<char>,
    pub action: Seq<char>,
}

impl View for ArgButton {
    type V = ArgButtonV;

    open spec fn view(&self) -> ArgButtonV {
        ArgButtonV { text: self.text@, action: self.action@ }
    }
}

/// Mathematical model of [`Args`].
#[verifier::ext_equal]
pub ghost struct ArgsV {
    pub height: u32,
    pub buttons: Seq<ArgButtonV>,
    pub font: Seq<char>,
}

impl View for Args {
    type V = ArgsV;

    open spec fn view(&self) -> ArgsV {
        ArgsV {
            height: self.height,
            buttons: self.buttons@.map_values(|b: ArgButton| b@),
            font: self.font@,
        }
    }
}

/// Why a command line was rejected. The variants that carry a string
/// carry the offending token.
#[derive(Debug)]
pub enum ParseError {
    /// `-h` was given a value that is not a decimal `u32`.
    InvalidHeight(String),
    /// `-h` came last, with no value after it.
    MissingHeight,
    /// A button flag came last, with no label after it.
    ButtonMissingText,
    /// A button flag had a label but no action after it.
    ButtonMissingAction,
    /// A token that is no known flag.
    InvalidArg(String),
    /// No button was given; the bar has nothing to show.
    NoButtons,
}

/// Mathematical model of [`ParseError`].
#[verifier::ext_equal]
pub ghost enum ParseErrorV {
    InvalidHeight(Seq<char>),
    MissingHeight,
    ButtonMissingText,
    ButtonMissingAction,
    InvalidArg(Seq<char>),
    NoButtons,
}

impl View for ParseError {
    type V = ParseErrorV;

    open spec fn view(&self) -> ParseErrorV {
        match self {
            ParseError::InvalidHeight(tok) => ParseErrorV::InvalidHeight(tok@),
            ParseError::MissingHeight => ParseErrorV::MissingHeight,
            ParseError::ButtonMissingText => ParseErrorV::ButtonMissingText,
            ParseError::ButtonMissingAction => ParseErrorV::ButtonMissingAction,
            ParseError::InvalidArg(tok) => ParseErrorV::InvalidArg(tok@),
            ParseError::NoButtons => ParseErrorV::NoButtons,
        }
    }
}

/// The model of a parse result.
pub open spec fn parse_result_view(r: Result<Args, ParseError>) -> Result<ArgsV, ParseErrorV> {
    match r {
        Ok(a) => Ok(a@),
        Err(e) => Err(e@),
    }
}

/// Whether every character of the string is a decimal digit.
pub open spec fn all_digits(s: Seq<char>) -> bool {
    forall|i: int| 0 <= i < s.len() ==> 48 <= #[trigger] s[i] as int <= 57
}

/// The number the digit string denotes.
pub open spec fn digits_value(s: Seq<char>) -> int
    decreases s.len(),
{
    if s.len() == 0 {
        0
    } else {
        digits_value(s.drop_last()) * 10 + (s.last() as int - 48)
    }
}

/// What `u32` parsing accepts, exactly as the standard parser does: an
/// optional leading plus sign, then at least one decimal digit, denoting
/// a value that fits.
pub open spec fn parse_u32_spec(s: Seq<char>) -> Option<u32> {
    let d = if s.len() >= 1 && s[0] == '+' {
        s.skip(1)
    } else {
        s
    };
    if d.len() >= 1 && all_digits(d) && digits_value(d) <= u32::MAX {
        Some(digits_value(d) as u32)
    } else {
        None
    }
}

/// A digit string denotes a non-negative number.
proof fn lemma_digits_value_nonnegative(s: Seq<char>)
    requires
        all_digits(s),
    ensures
        digits_value(s) >= 0,
    decreases s.len(),
{
    if s.len() > 0 {
        assert(all_digits(s.drop_last()));
        lemma_digits_value_nonnegative(s.drop_last());
    }
}

/// A digit string denotes at least what any of its prefixes denotes.
proof fn lemma_digits_value_monotone(s: Seq<char>, k: int)
    requires
        all_digits(s),
        0 <= k <= s.len(),
    ensures
        digits_value(s.take(k)) <= digits_value(s),
    decreases s.len() - k,
{
    if k < s.len() {
        lemma_digits_value_monotone(s, k + 1);
        assert(s.take(k + 1).drop_last() =~= s.take(k));
        assert(all_digits(s.take(k)));
        lemma_digits_value_nonnegative(s.take(k));
    } else {
        assert(s.take(k) =~= s);
    }
}

/// Whether two string slices hold the same characters.
fn str_eq(a: &str, b: &str) -> (r: bool)
    ensures
        r == (a@ == b@),
{
    let la = a.unicode_len();
    let lb = b.unicode_len();
    if la != lb {
        return false;
    }
    let mut i: usize = 0;
    while i < la
        invariant
            0 <= i <= la,
            la == a@.len(),
            la == b@.len(),
            forall|k: int| 0 <= k < i ==> a@[k] == b@[k],
        decreases la - i,
    {
        if a.get_char(i) != b.get_char(i) {
            return false;
        }
        i = i + 1;
    }
    proof {
        assert(a@ =~= b@);
    }
    true
}

/// Parse a decimal `u32`, exactly as [`parse_u32_spec`] describes.
fn parse_u32_str(s: &str) -> (r: Option<u32>)
    ensures
        r == parse_u32_spec(s@),
{
    let len = s.unicode_len();
    if len == 0 {
        return None;
    }
    let mut i: usize = 0;
    if s.get_char(0) == '+' {
        i = 1;
    }
    let ghost off = i as int;
    let ghost d = if s@[0] == '+' {
        s@.skip(1)
    } else {
        s@
    };
    proof {
        assert(d.len() == s@.len() - off);
        assert(forall|k: int| 0 <= k < d.len() ==> d[k] == s@[k + off]);
    }
    if i == len {
        return None;
    }
    let mut value: u64 = 0;
    while i < len
        invariant
            off <= i <= len,
            len == s@.len(),
            0 <= off <= 1,
            off == (if s@.len() >= 1 && s@[0] == '+' {
                1int
            } else {
                0int
            }),
            d == (if s@.len() >= 1 && s@[0] == '+' {
                s@.skip(1)
            } else {
                s@
            }),
            d.len() == len - off,
            forall|k: int| 0 <= k < d.len() ==> #[trigger] d[k] == s@[k + off],
            all_digits(d.take(i - off)),
            value == digits_value(d.take(i - off)),
            value <= u32::MAX,
        decreases len - i,
    {
        let c = s.get_char(i);
        let code = c as u32;
        if code < 48 || code > 57 {
            proof {
                assert(d[i - off] == s@[i as int]);
                assert(!(48 <= d[i - off] as int <= 57));
                assert(!all_digits(d));
            }
            return None;
        }
        proof {
            assert(d.take(i - off + 1).drop_last() =~= d.take(i - off));
            assert(d.take(i - off + 1).last() == d[i - off]);
            assert(all_digits(d.take(i - off + 1)));
        }
        value = value * 10 + (code - 48) as u64;
        if value > u32::MAX as u64 {
            proof {
                assert(value == digits_value(d.take(i - off + 1)));
                if all_digits(d) && digits_value(d) <= u32::MAX {
                    lemma_digits_value_monotone(d, i - off + 1);
                }
            }
            return None;
        }
        i = i + 1;
    }
    proof {
        assert(d.take(len - off) =~= d);
    }
    Some(value as u32)
}

/// What parsing a whole token list yields, given the settings gathered so
/// far: flags consume their values, buttons accumulate, and the first
/// offending token decides the error. An empty remainder yields the
/// gathered settings, provided at least one button was given.
pub open spec fn parse_spec(
    toks: Seq<Seq<char>>,
    height: u32,
    buttons: Seq<ArgButtonV>,
    font: Seq<char>,
) -> Result<ArgsV, ParseErrorV>
    decreases toks.len(),
{
    if toks.len() == 0 {
        if buttons.len() > 0 {
            Ok(ArgsV { height, buttons, font })
        } else {
            Err(ParseErrorV::NoButtons)
        }
    } else {
        let t = toks[0];
        if t == "-h"@ || t == "--height"@ {
            if toks.len() >= 2 {
                match parse_u32_spec(toks[1]) {
                    Some(v) => parse_spec(toks.skip(2), v, buttons, font),
                    None => Err(ParseErrorV::InvalidHeight(toks[1])),
                }
            } else {
                Err(ParseErrorV::MissingHeight)
            }
        } else if t == "-f"@ || t == "--font"@ {
            if toks.len() >= 2 {
                parse_spec(toks.skip(2), height, buttons, toks[1])
            } else {
                parse_spec(toks.skip(1), height, buttons, font)
            }
        } else if t == "-b"@ || t == "--button"@ || t == "-B"@ || t == "--button-no-terminal"@ {
            if toks.len() >= 3 {
                parse_spec(
                    toks.skip(3),
                    height,
                    buttons.push(ArgButtonV { text: toks[1], action: toks[2] }),
                    font,
                )
            } else if toks.len() == 2 {
                Err(ParseErrorV::ButtonMissingAction)
            } else {
                Err(ParseErrorV::ButtonMissingText)
            }
        } else {
            Err(ParseErrorV::InvalidArg(t))
        }
    }
}

/// The model of a token list.
pub open spec fn tokens_view(args: Seq<String>) -> Seq<Seq<char>> {
    args.map_values(|s: String| s@)
}

/// The tokens after the binary's name.
pub open spec fn rest_tokens(args: Seq<String>) -> Seq<Seq<char>> {
    if args.len() == 0 {
        Seq::empty()
    } else {
        tokens_view(args).skip(1)
    }
}

/// Parse the bar's command line. The first token is the binary's name and
/// is skipped; the default height is 32 and the default font path is
/// `/usr/share/fonts/TTF/Symbola.ttf`. Succeeds if and only if every flag
/// is known, every flag has its values, the height (if given) is a
/// decimal `u32`, and at least one button was given; the first offending
/// token decides the error, exactly as [`parse_spec`] lays down.
pub fn parse(args: &Vec<String>) -> (r: Result<Args, ParseError>)
    ensures
        parse_result_view(r) == parse_spec(
            rest_tokens(args@),
            32,
            Seq::empty(),
            "/usr/share/fonts/TTF/Symbola.ttf"@,
        ),
{
    let ghost toks = tokens_view(args@);
    let mut height: u32 = 32;
    let mut buttons: Vec<ArgButton> = Vec::new();
    let mut font: String = "/usr/share/fonts/TTF/Symbola.ttf".to_owned();
    let mut idx: usize = 1;
    if args.len() == 0 {
        return Err(ParseError::NoButtons);
    }
    proof {
        assert(buttons@.map_values(|b: ArgButton| b@) =~= Seq::<ArgButtonV>::empty());
    }
    while idx < args.len()
        invariant
            1 <= idx <= args@.len(),
            toks == tokens_view(args@),
            toks.len() == args@.len(),
            forall|k: int| 0 <= k < toks.len() ==> #[trigger] toks[k] == args@[k]@,
            parse_spec(rest_tokens(args@), 32, Seq::empty(), "/usr/share/fonts/TTF/Symbola.ttf"@)
                == parse_spec(
                toks.skip(idx as int),
                height,
                buttons@.map_values(|b: ArgButton| b@),
                font@,
            ),
        decreases args@.len() - idx,
    {
        proof {
            assert(toks.skip(idx as int)[0] == toks[idx as int]);
            assert(toks.skip(idx as int).len() == toks.len() - idx);
        }
        let t = &args[idx];
        if str_eq(t.as_str(), "-h") || str_eq(t.as_str(), "--height") {
            if args.len() - idx > 1 {
                let v = parse_u32_str(args[idx + 1].as_str());
                proof {
                    assert(toks.skip(idx as int)[1] == toks[idx as int + 1]);
                }
                match v {
                    Some(value) => {
                        height = value;
                        proof {
                            assert(toks.skip(idx as int).skip(2) =~= toks.skip(idx as int + 2));
                        }
                        idx = idx + 2;
                    },
                    None => {
                        return Err(ParseError::InvalidHeight(args[idx + 1].clone()));
                    },
                }
            } else {
                return Err(ParseError::MissingHeight);
            }
        } else if str_eq(t.as_str(), "-f") || str_eq(t.as_str(), "--font") {
            if args.len() - idx > 1 {
                font = args[idx + 1].clone();
                proof {
                    assert(toks.skip(idx as int)[1] == toks[idx as int + 1]);
                    assert(toks.skip(idx as int).skip(2) =~= toks.skip(idx as int + 2));
                }
                idx = idx + 2;
            } else {
                proof {
                    assert(toks.skip(idx as int).skip(1) =~= toks.skip(idx as int + 1));
                }
                idx = idx + 1;
            }
        } else if str_eq(t.as_str(), "-b") || str_eq(t.as_str(), "--button") || str_eq(
            t.as_str(),
            "-B",
        ) || str_eq(t.as_str(), "--button-no-terminal") {
            if args.len() - idx > 2 {
                let ghost prev_buttons = buttons@;
                let button = ArgButton {
                    text: args[idx + 1].clone(),
                    action: args[idx + 2].clone(),
                };
                proof {
                    assert(toks.skip(idx as int)[1] == toks[idx as int + 1]);
                    assert(toks.skip(idx as int)[2] == toks[idx as int + 2]);
                    assert(button@ =~= (ArgButtonV {
                        text: toks[idx as int + 1],
                        action: toks[idx as int + 2],
                    }));
                }
                buttons.push(button);
                proof {
                    assert(buttons@.map_values(|b: ArgButton| b@) =~= prev_buttons.map_values(
                        |b: ArgButton| b@,
                    ).push(
                        ArgButtonV { text: toks[idx as int + 1], action: toks[idx as int + 2] },
                    ));
                    assert(toks.skip(idx as int).skip(3) =~= toks.skip(idx as int + 3));
                }
                idx = idx + 3;
            } else if args.len() - idx > 1 {
                return Err(ParseError::ButtonMissingAction);
            } else {
                return Err(ParseError::ButtonMissingText);
            }
        } else {
            return Err(ParseError::InvalidArg(t.clone()));
        }
    }
    proof {
        assert(toks.skip(idx as int) =~= Seq::<Seq<char>>::empty());
    }
    if buttons.len() > 0 {
        let r = Args { height, buttons, font };
        proof {
            assert(r@ =~= (ArgsV {
                height,
                buttons: r.buttons@.map_values(|b: ArgButton| b@),
                font: r.font@,
            }));
        }
        Ok(r)
    } else {
        Err(ParseError::NoButtons)
    }
}

} // verus!
