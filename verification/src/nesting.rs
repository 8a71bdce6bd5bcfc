//! How deep a TOML text can nest, found by one pass over its characters
//! before the text is parsed. The parser and everything that walks the
//! parsed tree descend once for each level, so a text is parsed only where
//! this depth is small.
//!
//! The pass tells strings and comments from the rest as TOML does: between
//! quotes and after `#` nothing nests. Outside them `[` and `{` open a level
//! and `]` and `}` close one, and a dot may part two keys and so open a
//! table. Dots stay counted until the line ends outside every bracket,
//! where the statement that they belong to is over. A multi-line string, or
//! a line break inside a single-line one, ends the telling apart: from there
//! on every `[`, `{` and dot counts and nothing closes.
//!
//! A table header and the statements below it nest on top of each other, and
//! a key of an array of tables stands for two levels, the array and its
//! table. So no value of the parsed text lies more than `4 * nesting + 1`
//! levels deep, and the parser itself descends at most `nesting` levels.

use vstd::prelude::*;
use vstd::std_specs::iter::IteratorSpec;

verus! {

/// The deepest nesting that is parsed.
pub const MAX_NESTING: usize = 128;

/// What the pass is inside of.
#[derive(Clone, Copy, Debug, PartialEq, Eq, Structural)]
pub enum Lexical {
    /// Outside strings and comments.
    Plain,
    /// In a comment, which runs to the end of the line.
    Comment,
    /// Just behind the `"` that opens a string.
    BasicOpened,
    /// Behind `""`: an empty string, unless a third `"` follows.
    BasicEmpty,
    /// In a string between `"`.
    Basic,
    /// Behind a backslash in a string between `"`.
    BasicEscape,
    /// Just behind the `'` that opens a string.
    LiteralOpened,
    /// Behind `''`: an empty string, unless a third `'` follows.
    LiteralEmpty,
    /// In a string between `'`.
    Literal,
    /// Strings are no longer told from the rest.
    Unknown,
}

/// The state of the pass.
#[derive(Clone, Copy, Debug, PartialEq, Eq, Structural)]
pub struct Scan {
    pub lexical: Lexical,
    /// Brackets and braces that are open.
    pub open: usize,
    /// Dots of the statement at hand.
    pub dots: usize,
    /// The largest sum of the two so far.
    pub deepest: usize,
}

/// One more, as far as the type goes.
pub open spec fn up(count: usize) -> usize {
    if count < usize::MAX {
        (count + 1) as usize
    } else {
        count
    }
}

/// One less, down to zero.
pub open spec fn down(count: usize) -> usize {
    if count > 0 {
        (count - 1) as usize
    } else {
        count
    }
}

/// The sum, as far as the type goes.
pub open spec fn sum(a: usize, b: usize) -> usize {
    if a + b <= usize::MAX {
        (a + b) as usize
    } else {
        usize::MAX
    }
}

impl Scan {
    /// The pass before the first character.
    pub open spec fn start() -> Scan {
        Scan { lexical: Lexical::Plain, open: 0, dots: 0, deepest: 0 }
    }

    /// The state with the deepest nesting brought up to date.
    pub open spec fn measured(self) -> Scan {
        let depth = sum(self.open, self.dots);
        Scan { deepest: if depth > self.deepest { depth } else { self.deepest }, ..self }
    }

    /// The state after `c` outside strings and comments.
    pub open spec fn plain(self, c: char) -> Scan {
        let next = Scan { lexical: Lexical::Plain, ..self };
        if c == '"' {
            Scan { lexical: Lexical::BasicOpened, ..self }
        } else if c == '\'' {
            Scan { lexical: Lexical::LiteralOpened, ..self }
        } else if c == '#' {
            Scan { lexical: Lexical::Comment, ..self }
        } else if c == '[' || c == '{' {
            Scan { open: up(self.open), ..next }
        } else if c == ']' || c == '}' {
            Scan { open: down(self.open), ..next }
        } else if c == '.' {
            Scan { dots: up(self.dots), ..next }
        } else if c == '\n' && self.open == 0 {
            Scan { dots: 0, ..next }
        } else {
            next
        }
    }

    /// The state after `c` where strings are no longer told from the rest.
    pub open spec fn unknown(self, c: char) -> Scan {
        let next = Scan { lexical: Lexical::Unknown, ..self };
        if c == '[' || c == '{' || c == '.' {
            Scan { open: up(self.open), ..next }
        } else {
            next
        }
    }

    /// The state after `c` in a string between `quote`, where `inside` is
    /// the state of being in such a string.
    pub open spec fn quoted(self, c: char, quote: char, inside: Lexical) -> Scan {
        if c == quote {
            Scan { lexical: Lexical::Plain, ..self }
        } else if c == '\n' {
            Scan { lexical: Lexical::Unknown, ..self }
        } else if c == '\\' && quote == '"' {
            Scan { lexical: Lexical::BasicEscape, ..self }
        } else {
            Scan { lexical: inside, ..self }
        }
    }

    /// The state after the character `c`.
    pub open spec fn after(self, c: char) -> Scan {
        (match self.lexical {
            Lexical::Plain => self.plain(c),
            Lexical::Comment => if c == '\n' {
                self.plain(c)
            } else {
                self
            },
            Lexical::BasicOpened => if c == '"' {
                Scan { lexical: Lexical::BasicEmpty, ..self }
            } else {
                self.quoted(c, '"', Lexical::Basic)
            },
            Lexical::BasicEmpty => if c == '"' {
                Scan { lexical: Lexical::Unknown, ..self }
            } else {
                self.plain(c)
            },
            Lexical::Basic => self.quoted(c, '"', Lexical::Basic),
            Lexical::BasicEscape => if c == '\n' {
                Scan { lexical: Lexical::Unknown, ..self }
            } else {
                Scan { lexical: Lexical::Basic, ..self }
            },
            Lexical::LiteralOpened => if c == '\'' {
                Scan { lexical: Lexical::LiteralEmpty, ..self }
            } else {
                self.quoted(c, '\'', Lexical::Literal)
            },
            Lexical::LiteralEmpty => if c == '\'' {
                Scan { lexical: Lexical::Unknown, ..self }
            } else {
                self.plain(c)
            },
            Lexical::Literal => self.quoted(c, '\'', Lexical::Literal),
            Lexical::Unknown => self.unknown(c),
        }).measured()
    }
}

/// The state of the pass after the first `n` characters of `text`.
pub open spec fn scanned(text: Seq<char>, n: int) -> Scan
    decreases n,
{
    if n <= 0 {
        Scan::start()
    } else {
        scanned(text, n - 1).after(text[n - 1])
    }
}

/// How deep `text` can nest: the largest number of open brackets and braces
/// and dots of one statement that the pass over `text` meets.
pub open spec fn nesting(text: Seq<char>) -> usize {
    scanned(text, text.len() as int).deepest
}

/// The pass never forgets a depth that it met: what the first `n`
/// characters nest, every longer part of the text nests too.
pub proof fn lemma_deepest_grows(text: Seq<char>, n: int, m: int)
    requires
        0 <= n <= m,
    ensures
        scanned(text, n).deepest <= scanned(text, m).deepest,
        sum(scanned(text, m).open, scanned(text, m).dots) <= scanned(text, m).deepest,
    decreases m - n,
{
    if n < m {
        lemma_deepest_grows(text, n, m - 1);
    }
}

fn one_more(count: usize) -> (more: usize)
    ensures
        more == up(count),
{
    if count < usize::MAX {
        count + 1
    } else {
        count
    }
}

fn one_less(count: usize) -> (less: usize)
    ensures
        less == down(count),
{
    if count > 0 {
        count - 1
    } else {
        count
    }
}

fn plain_step(state: Scan, c: char) -> (next: Scan)
    ensures
        next == state.plain(c),
{
    if c == '"' {
        Scan { lexical: Lexical::BasicOpened, open: state.open, dots: state.dots, deepest: state.deepest }
    } else if c == '\'' {
        Scan {
            lexical: Lexical::LiteralOpened,
            open: state.open,
            dots: state.dots,
            deepest: state.deepest,
        }
    } else if c == '#' {
        Scan { lexical: Lexical::Comment, open: state.open, dots: state.dots, deepest: state.deepest }
    } else if c == '[' || c == '{' {
        Scan {
            lexical: Lexical::Plain,
            open: one_more(state.open),
            dots: state.dots,
            deepest: state.deepest,
        }
    } else if c == ']' || c == '}' {
        Scan {
            lexical: Lexical::Plain,
            open: one_less(state.open),
            dots: state.dots,
            deepest: state.deepest,
        }
    } else if c == '.' {
        Scan {
            lexical: Lexical::Plain,
            open: state.open,
            dots: one_more(state.dots),
            deepest: state.deepest,
        }
    } else if c == '\n' && state.open == 0 {
        Scan { lexical: Lexical::Plain, open: state.open, dots: 0, deepest: state.deepest }
    } else {
        Scan { lexical: Lexical::Plain, open: state.open, dots: state.dots, deepest: state.deepest }
    }
}

fn quoted_step(state: Scan, c: char, quote: char, inside: Lexical) -> (next: Scan)
    ensures
        next == state.quoted(c, quote, inside),
{
    let lexical = if c == quote {
        Lexical::Plain
    } else if c == '\n' {
        Lexical::Unknown
    } else if c == '\\' && quote == '"' {
        Lexical::BasicEscape
    } else {
        inside
    };
    Scan { lexical, open: state.open, dots: state.dots, deepest: state.deepest }
}

fn turned(state: Scan, lexical: Lexical) -> (next: Scan)
    ensures
        next == (Scan { lexical, ..state }),
{
    Scan { lexical, open: state.open, dots: state.dots, deepest: state.deepest }
}

/// Takes the pass over one character.
fn step(state: Scan, c: char) -> (next: Scan)
    ensures
        next == state.after(c),
{
    let moved = match state.lexical {
        Lexical::Plain => plain_step(state, c),
        Lexical::Comment => if c == '\n' {
            plain_step(state, c)
        } else {
            state
        },
        Lexical::BasicOpened => if c == '"' {
            turned(state, Lexical::BasicEmpty)
        } else {
            quoted_step(state, c, '"', Lexical::Basic)
        },
        Lexical::BasicEmpty => if c == '"' {
            turned(state, Lexical::Unknown)
        } else {
            plain_step(state, c)
        },
        Lexical::Basic => quoted_step(state, c, '"', Lexical::Basic),
        Lexical::BasicEscape => if c == '\n' {
            turned(state, Lexical::Unknown)
        } else {
            turned(state, Lexical::Basic)
        },
        Lexical::LiteralOpened => if c == '\'' {
            turned(state, Lexical::LiteralEmpty)
        } else {
            quoted_step(state, c, '\'', Lexical::Literal)
        },
        Lexical::LiteralEmpty => if c == '\'' {
            turned(state, Lexical::Unknown)
        } else {
            plain_step(state, c)
        },
        Lexical::Literal => quoted_step(state, c, '\'', Lexical::Literal),
        Lexical::Unknown => if c == '[' || c == '{' || c == '.' {
            Scan {
                lexical: Lexical::Unknown,
                open: one_more(state.open),
                dots: state.dots,
                deepest: state.deepest,
            }
        } else {
            turned(state, Lexical::Unknown)
        },
    };
    let depth = if moved.dots <= usize::MAX - moved.open {
        moved.open + moved.dots
    } else {
        usize::MAX
    };
    Scan {
        lexical: moved.lexical,
        open: moved.open,
        dots: moved.dots,
        deepest: if depth > moved.deepest {
            depth
        } else {
            moved.deepest
        },
    }
}

/// How deep `text` can nest.
pub fn nesting_of(text: &str) -> (depth: usize)
    ensures
        depth == nesting(text@),
{
    let mut state = Scan { lexical: Lexical::Plain, open: 0, dots: 0, deepest: 0 };
    let mut rest = text.chars();
    let ghost mut n: int = 0;
    loop
        invariant
            0 <= n <= text@.len(),
            rest.remaining() == text@.skip(n),
            state == scanned(text@, n),
        decreases text@.len() - n,
    {
        match rest.next() {
            Some(c) => {
                state = step(state, c);
                proof {
                    n = n + 1;
                }
            },
            None => {
                return state.deepest;
            },
        }
    }
}

} // verus!
