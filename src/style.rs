//! Terminal colours, through the `colored` crate. Whether colour is written
//! depends on the process's environment and terminal, so what is known of
//! a painted string is only that it is the text itself, or the text between
//! the colour's escape sequence and the reset sequence.

use vstd::prelude::*;
use colored::Colorize;
use crate::search::Snippet;
use crate::text::{contains_spec, decimal, decimal_spec};

verus! {

/// The escape sequence that selects the colour `code`.
pub open spec fn sgr(code: Seq<char>) -> Seq<char> {
    seq!['\x1b', '['] + code + seq!['m']
}

/// The escape sequence that resets all styles.
pub open spec fn reset_code() -> Seq<char> {
    seq!['\x1b', '[', '0', 'm']
}

/// `r` shows `s` in the colour `code`: plain when colour is off; when it is
/// on, `s` between the colour's sequence and the reset sequence, and when `s`
/// itself holds a reset sequence the colour is selected again after each.
pub open spec fn painted(r: Seq<char>, s: Seq<char>, code: Seq<char>) -> bool {
    ||| r == s
    ||| (!contains_spec(s, reset_code()) && r == sgr(code) + s + reset_code())
    ||| (contains_spec(s, reset_code()) && r.len() >= sgr(code).len() + reset_code().len()
        && r.subrange(0, sgr(code).len() as int) == sgr(code) && r.subrange(
        r.len() - reset_code().len(),
        r.len() as int,
    ) == reset_code())
}

pub open spec fn red_code() -> Seq<char> {
    seq!['3', '1']
}

pub open spec fn green_code() -> Seq<char> {
    seq!['3', '2']
}

pub open spec fn blue_code() -> Seq<char> {
    seq!['3', '4']
}

/// Relies on `colored`'s `Colorize::red` and the `Display` of its
/// `ColoredString`: the text plain, or wrapped for red.
#[verifier::external_body]
pub(crate) fn red(s: &str) -> (r: String)
    ensures
        painted(r@, s@, red_code()),
{
    s.red().to_string()
}

/// Relies on `colored`'s `Colorize::green` and the `Display` of its
/// `ColoredString`: the text plain, or wrapped for green.
#[verifier::external_body]
pub(crate) fn green(s: &str) -> (r: String)
    ensures
        painted(r@, s@, green_code()),
{
    s.green().to_string()
}

/// Relies on `colored`'s `Colorize::blue` and the `Display` of its
/// `ColoredString`: the text plain, or wrapped for blue.
#[verifier::external_body]
pub(crate) fn blue(s: &str) -> (r: String)
    ensures
        painted(r@, s@, blue_code()),
{
    s.blue().to_string()
}

/// One printed line of a snippet: indent, number, colon, space, text.
pub open spec fn snippet_line(number: Seq<char>, colon: Seq<char>, body: Seq<char>) -> Seq<char> {
    seq![' ', ' '] + number + colon + seq![' '] + body
}

/// `t` with the part `s..e` replaced by `word`.
pub open spec fn with_word(t: Seq<char>, s: int, e: int, word: Seq<char>) -> Seq<char> {
    t.subrange(0, s) + word + t.subrange(e, t.len() as int)
}

/// The match range of a snippet cut to its text.
pub open spec fn cut_start(x: Snippet) -> int {
    if x.start <= x.text@.len() {
        x.start as int
    } else {
        x.text@.len() as int
    }
}

pub open spec fn cut_end(x: Snippet) -> int {
    if x.end < cut_start(x) {
        cut_start(x)
    } else if x.end <= x.text@.len() {
        x.end as int
    } else {
        x.text@.len() as int
    }
}

fn line_of(number: &str, colon: &str, body: &str) -> (r: String)
    ensures
        r@ == snippet_line(number@, colon@, body@),
{
    let mut r = String::from_str("  ");
    r.append(number);
    r.append(colon);
    r.append(" ");
    r.append(body);
    proof {
        reveal_strlit("  ");
        reveal_strlit(" ");
    }
    assert(r@ =~= snippet_line(number@, colon@, body@));
    r
}

impl Snippet {
    /// The snippet as printed: the line before, when there is one, on a line
    /// of its own, then the matching line, each after its number in green
    /// and a colon in blue, with the match in red.
    pub fn render(&self) -> (r: String)
        ensures
            exists|num: Seq<char>, colon: Seq<char>, word: Seq<char>, before: Seq<char>|
                {
                    &&& painted(num, decimal_spec(self.number as nat), green_code())
                    &&& painted(colon, seq![':'], blue_code())
                    &&& painted(
                        word,
                        self.text@.subrange(cut_start(*self), cut_end(*self)),
                        red_code(),
                    )
                    &&& r@ == before + snippet_line(
                        num,
                        colon,
                        with_word(self.text@, cut_start(*self), cut_end(*self), word),
                    )
                    &&& match self.context {
                        None => before.len() == 0,
                        Some(c) => exists|n0: Seq<char>, c0: Seq<char>|
                            {
                                &&& painted(
                                    n0,
                                    decimal_spec(
                                        if self.number > 0 {
                                            (self.number - 1) as nat
                                        } else {
                                            0
                                        },
                                    ),
                                    green_code(),
                                )
                                &&& painted(c0, seq![':'], blue_code())
                                &&& before == snippet_line(n0, c0, c@) + seq!['\n']
                            },
                    }
                },
    {
        let len = self.text.as_str().unicode_len();
        let s = if self.start <= len {
            self.start
        } else {
            len
        };
        let e = if self.end < s {
            s
        } else if self.end <= len {
            self.end
        } else {
            len
        };
        let colon_text = ":";
        proof {
            reveal_strlit(":");
        }
        assert(colon_text@ =~= seq![':']);
        let head = self.text.as_str().substring_char(0, s);
        let matched = self.text.as_str().substring_char(s, e);
        let tail = self.text.as_str().substring_char(e, len);
        let word = red(matched);
        let mut body = String::from_str(head);
        body.append(word.as_str());
        body.append(tail);
        assert(body@ =~= with_word(self.text@, s as int, e as int, word@));
        let num = green(decimal(self.number).as_str());
        let colon = blue(colon_text);
        let this_line = line_of(num.as_str(), colon.as_str(), body.as_str());
        let mut r = String::new();
        match &self.context {
            None => {},
            Some(c) => {
                let previous = if self.number > 0 {
                    self.number - 1
                } else {
                    0
                };
                let pn = green(decimal(previous).as_str());
                let pc = blue(colon_text);
                let ctx_line = line_of(pn.as_str(), pc.as_str(), c.as_str());
                r.append(ctx_line.as_str());
                r.append("\n");
                proof {
                    reveal_strlit("\n");
                    assert(r@ == snippet_line(pn@, pc@, c@) + seq!['\n']);
                    assert(painted(pn@, decimal_spec(previous as nat), green_code()));
                    assert(painted(pc@, seq![':'], blue_code()));
                }
            },
        }
        let ghost before = r@;
        r.append(this_line.as_str());
        proof {
            assert(r@ == before + this_line@);
            assert(painted(num@, decimal_spec(self.number as nat), green_code()));
            assert(painted(colon@, seq![':'], blue_code()));
            assert(painted(word@, self.text@.subrange(cut_start(*self), cut_end(*self)), red_code()));
        }
        r
    }
}

} // verus!
