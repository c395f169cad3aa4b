//! Where a reader of code stands: in code, in a string, in a comment and so on.
//!
//! Some literals and comments span lines. What a reader makes of a quote on one
//! line can therefore depend on the lines before, and on the dialect: a quote
//! opens no string behind a backslash, between bars or in a block comment.

use vstd::prelude::*;

use crate::language::LanguageFeatures;

verus! {

/// The byte of an exclamation mark.
pub const BANG: u8 = 33;

/// The byte of a double quote.
pub const QUOTE: u8 = 34;

/// The byte of a number sign.
pub const HASH: u8 = 35;

/// The byte of a semicolon.
pub const SEMICOLON: u8 = 59;

/// The byte of an opening bracket.
pub const OPEN: u8 = 91;

/// The byte of a backslash.
pub const BACKSLASH: u8 = 92;

/// The byte of a closing bracket.
pub const CLOSE: u8 = 93;

/// The byte of a backquote.
pub const TICK: u8 = 96;

/// The byte of a bar.
pub const BAR: u8 = 124;

/// What the reader is in the middle of.
#[derive(Clone, Copy, Debug, PartialEq, Eq, Structural)]
pub enum Mode {
    /// Code.
    Code,
    /// Code, directly behind a backslash.
    Escape,
    /// Code, directly behind a number sign.
    Hash,
    /// A comment that the end of the line ends.
    Comment,
    /// A string between quotes.
    Quoted,
    /// A string between quotes, directly behind a backslash.
    QuotedEscape,
    /// A symbol between bars.
    Bar,
    /// A symbol between bars, directly behind a backslash.
    BarEscape,
    /// So many block comments `#| ... |#`, one in the other.
    Block(u64),
    /// So many block comments, directly behind a bar.
    BlockBar(u64),
    /// So many block comments, directly behind a number sign.
    BlockHash(u64),
    /// A block comment `#! ... !#`.
    Bang,
    /// A block comment `#! ... !#`, directly behind an exclamation mark.
    BangEnd,
    /// The backquotes that open a long string; so many so far.
    Ticks(u64),
    /// A long string between runs of so many backquotes, directly behind so
    /// many of them.
    Long(u64, u64),
    /// The name in the opening `#[name[` of a bracket string.
    Tag,
    /// A bracket string `#[name[ ... ]name]`.
    Bracket,
    /// A bracket string, behind a closing bracket and so many bytes of the name.
    BracketEnd(usize),
}

/// Where a reader stands.
#[derive(Debug)]
pub struct Place {
    /// What the reader is in the middle of.
    pub mode: Mode,
    /// The name of the bracket string that the reader is in.
    pub tag: Vec<u8>,
}

/// The contents of a [`Place`].
pub struct PlaceView {
    pub mode: Mode,
    pub tag: Seq<u8>,
}

impl View for Place {
    type V = PlaceView;

    open spec fn view(&self) -> PlaceView {
        PlaceView { mode: self.mode, tag: self.tag@ }
    }
}

/// A place outside bracket strings.
pub open spec fn at(mode: Mode) -> PlaceView {
    PlaceView { mode, tag: Seq::empty() }
}

/// One more, as far as the type goes. No text is long enough to get there.
pub open spec fn one_more(n: u64) -> u64 {
    if n < u64::MAX {
        (n + 1) as u64
    } else {
        n
    }
}

/// What the byte `b` leads to in code.
pub open spec fn after_code(n: LanguageFeatures, b: u8) -> Mode {
    if b == QUOTE {
        Mode::Quoted
    } else if b == HASH {
        Mode::Hash
    } else if b == n.comment_char as u8 {
        Mode::Comment
    } else if b == BACKSLASH {
        Mode::Escape
    } else if b == BAR && n.lisp_vline_symbols {
        Mode::Bar
    } else if b == TICK && n.janet_long_strings {
        Mode::Ticks(1)
    } else {
        Mode::Code
    }
}

/// What the byte `b` leads to directly behind a number sign.
pub open spec fn after_hash(n: LanguageFeatures, b: u8) -> Mode {
    if b == BACKSLASH {
        Mode::Escape
    } else if n.comment_char as u8 == HASH {
        Mode::Comment
    } else if b == BAR && n.lisp_block_comments {
        Mode::Block(1)
    } else if b == BANG && n.guile_block_comments {
        Mode::Bang
    } else if b == SEMICOLON && n.scheme_sexp_comments {
        Mode::Code
    } else if b == OPEN && n.hy_bracket_strings {
        Mode::Tag
    } else {
        after_code(n, b)
    }
}

/// What the byte `b` leads to in `depth` block comments.
pub open spec fn after_block(depth: u64, b: u8) -> Mode {
    if b == BAR {
        Mode::BlockBar(depth)
    } else if b == HASH {
        Mode::BlockHash(depth)
    } else {
        Mode::Block(depth)
    }
}

/// What the byte `b` leads to in a long string between runs of `run`
/// backquotes, behind `seen` of them.
pub open spec fn after_long(run: u64, seen: u64, b: u8) -> Mode {
    if b != TICK {
        Mode::Long(run, 0)
    } else if one_more(seen) >= run {
        Mode::Code
    } else {
        Mode::Long(run, one_more(seen))
    }
}

/// What the byte `b` leads to outside bracket strings.
pub open spec fn after(mode: Mode, n: LanguageFeatures, b: u8) -> Mode {
    match mode {
        Mode::Code => after_code(n, b),
        Mode::Escape => Mode::Code,
        Mode::Hash => after_hash(n, b),
        Mode::Comment => Mode::Comment,
        Mode::Quoted => if b == BACKSLASH {
            Mode::QuotedEscape
        } else if b == QUOTE {
            Mode::Code
        } else {
            Mode::Quoted
        },
        Mode::QuotedEscape => Mode::Quoted,
        Mode::Bar => if b == BACKSLASH {
            Mode::BarEscape
        } else if b == BAR {
            Mode::Code
        } else {
            Mode::Bar
        },
        Mode::BarEscape => Mode::Bar,
        Mode::Block(depth) => after_block(depth, b),
        Mode::BlockBar(depth) => if b != HASH {
            after_block(depth, b)
        } else if depth <= 1 {
            Mode::Code
        } else {
            Mode::Block((depth - 1) as u64)
        },
        Mode::BlockHash(depth) => if b != BAR {
            after_block(depth, b)
        } else {
            Mode::Block(one_more(depth))
        },
        Mode::Bang => if b == BANG {
            Mode::BangEnd
        } else {
            Mode::Bang
        },
        Mode::BangEnd => if b == HASH {
            Mode::Code
        } else if b == BANG {
            Mode::BangEnd
        } else {
            Mode::Bang
        },
        Mode::Ticks(run) => if b == TICK {
            Mode::Ticks(one_more(run))
        } else {
            Mode::Long(run, 0)
        },
        Mode::Long(run, seen) => after_long(run, seen, b),
        Mode::Tag | Mode::Bracket | Mode::BracketEnd(_) => mode,
    }
}

/// Where the byte `b` leads from the place `p`.
pub open spec fn step(p: PlaceView, n: LanguageFeatures, b: u8) -> PlaceView {
    match p.mode {
        Mode::Tag => if b == OPEN {
            PlaceView { mode: Mode::Bracket, tag: p.tag }
        } else if b == CLOSE {
            at(Mode::Code)
        } else {
            PlaceView { mode: Mode::Tag, tag: p.tag.push(b) }
        },
        Mode::Bracket => if b == CLOSE {
            PlaceView { mode: Mode::BracketEnd(0), tag: p.tag }
        } else {
            p
        },
        Mode::BracketEnd(m) => if b == CLOSE && m == p.tag.len() {
            at(Mode::Code)
        } else if b == CLOSE {
            PlaceView { mode: Mode::BracketEnd(0), tag: p.tag }
        } else if m < p.tag.len() && b == p.tag[m as int] {
            PlaceView { mode: Mode::BracketEnd((m + 1) as usize), tag: p.tag }
        } else {
            PlaceView { mode: Mode::Bracket, tag: p.tag }
        },
        mode => at(after(mode, n, b)),
    }
}

/// Where the end of a line leads from the place `p`.
pub open spec fn line_end(p: PlaceView) -> PlaceView {
    match p.mode {
        Mode::Code | Mode::Escape | Mode::Hash | Mode::Comment | Mode::Tag => at(Mode::Code),
        Mode::Quoted | Mode::QuotedEscape => at(Mode::Quoted),
        Mode::Bar | Mode::BarEscape => at(Mode::Bar),
        Mode::Block(depth) | Mode::BlockBar(depth) | Mode::BlockHash(depth) => at(
            Mode::Block(depth),
        ),
        Mode::Bang | Mode::BangEnd => at(Mode::Bang),
        Mode::Ticks(run) => at(Mode::Long(run, 0)),
        Mode::Long(run, _) => at(Mode::Long(run, 0)),
        Mode::Bracket | Mode::BracketEnd(_) => PlaceView { mode: Mode::Bracket, tag: p.tag },
    }
}

/// Where the bytes of `b` from position `i` on lead from the place `p`.
pub open spec fn read(b: Seq<u8>, n: LanguageFeatures, p: PlaceView, i: int) -> PlaceView
    decreases b.len() - i,
{
    if i < 0 || i >= b.len() {
        p
    } else {
        read(b, n, step(p, n, b[i]), i + 1)
    }
}

/// Where the reader stands behind the line `b`.
pub open spec fn place_behind(b: Seq<u8>, n: LanguageFeatures, p: PlaceView) -> PlaceView {
    line_end(read(b, n, p, 0))
}

/// Whether the reader is in a string between quotes.
pub open spec fn in_string(p: PlaceView) -> bool {
    p.mode is Quoted
}

/// Counts one more.
fn count_one_more(n: u64) -> (r: u64)
    ensures
        r == one_more(n),
{
    if n < u64::MAX {
        n + 1
    } else {
        n
    }
}

/// Reads one byte in code.
fn go_on_code(n: &LanguageFeatures, b: u8) -> (r: Mode)
    ensures
        r == after_code(*n, b),
{
    if b == QUOTE {
        Mode::Quoted
    } else if b == HASH {
        Mode::Hash
    } else if b == n.comment_char as u8 {
        Mode::Comment
    } else if b == BACKSLASH {
        Mode::Escape
    } else if b == BAR && n.lisp_vline_symbols {
        Mode::Bar
    } else if b == TICK && n.janet_long_strings {
        Mode::Ticks(1)
    } else {
        Mode::Code
    }
}

/// Reads one byte directly behind a number sign.
fn go_on_hash(n: &LanguageFeatures, b: u8) -> (r: Mode)
    ensures
        r == after_hash(*n, b),
{
    if b == BACKSLASH {
        Mode::Escape
    } else if n.comment_char as u8 == HASH {
        Mode::Comment
    } else if b == BAR && n.lisp_block_comments {
        Mode::Block(1)
    } else if b == BANG && n.guile_block_comments {
        Mode::Bang
    } else if b == SEMICOLON && n.scheme_sexp_comments {
        Mode::Code
    } else if b == OPEN && n.hy_bracket_strings {
        Mode::Tag
    } else {
        go_on_code(n, b)
    }
}

/// Reads one byte in block comments.
fn go_on_block(depth: u64, b: u8) -> (r: Mode)
    ensures
        r == after_block(depth, b),
{
    if b == BAR {
        Mode::BlockBar(depth)
    } else if b == HASH {
        Mode::BlockHash(depth)
    } else {
        Mode::Block(depth)
    }
}

/// Reads one byte in a long string.
fn go_on_long(run: u64, seen: u64, b: u8) -> (r: Mode)
    ensures
        r == after_long(run, seen, b),
{
    if b != TICK {
        Mode::Long(run, 0)
    } else if count_one_more(seen) >= run {
        Mode::Code
    } else {
        Mode::Long(run, count_one_more(seen))
    }
}

/// Reads one byte outside bracket strings.
fn go_on(mode: Mode, n: &LanguageFeatures, b: u8) -> (r: Mode)
    ensures
        r == after(mode, *n, b),
{
    match mode {
        Mode::Code => go_on_code(n, b),
        Mode::Escape => Mode::Code,
        Mode::Hash => go_on_hash(n, b),
        Mode::Comment => Mode::Comment,
        Mode::Quoted => if b == BACKSLASH {
            Mode::QuotedEscape
        } else if b == QUOTE {
            Mode::Code
        } else {
            Mode::Quoted
        },
        Mode::QuotedEscape => Mode::Quoted,
        Mode::Bar => if b == BACKSLASH {
            Mode::BarEscape
        } else if b == BAR {
            Mode::Code
        } else {
            Mode::Bar
        },
        Mode::BarEscape => Mode::Bar,
        Mode::Block(depth) => go_on_block(depth, b),
        Mode::BlockBar(depth) => if b != HASH {
            go_on_block(depth, b)
        } else if depth <= 1 {
            Mode::Code
        } else {
            Mode::Block(depth - 1)
        },
        Mode::BlockHash(depth) => if b != BAR {
            go_on_block(depth, b)
        } else {
            Mode::Block(count_one_more(depth))
        },
        Mode::Bang => if b == BANG {
            Mode::BangEnd
        } else {
            Mode::Bang
        },
        Mode::BangEnd => if b == HASH {
            Mode::Code
        } else if b == BANG {
            Mode::BangEnd
        } else {
            Mode::Bang
        },
        Mode::Ticks(run) => if b == TICK {
            Mode::Ticks(count_one_more(run))
        } else {
            Mode::Long(run, 0)
        },
        Mode::Long(run, seen) => go_on_long(run, seen, b),
        Mode::Tag | Mode::Bracket | Mode::BracketEnd(_) => mode,
    }
}

impl Place {
    /// The place where every text starts.
    pub fn start() -> (r: Place)
        ensures
            r@ == at(Mode::Code),
    {
        Place { mode: Mode::Code, tag: Vec::new() }
    }

    /// Whether the reader is in a string between quotes.
    pub fn is_in_string(&self) -> (r: bool)
        ensures
            r == in_string(self@),
    {
        match self.mode {
            Mode::Quoted => true,
            _ => false,
        }
    }

    /// Goes to a place outside bracket strings.
    fn go_to(&mut self, mode: Mode)
        ensures
            final(self)@ == at(mode),
    {
        self.mode = mode;
        self.tag.clear();
    }

    /// Reads one byte.
    fn read_byte(&mut self, n: &LanguageFeatures, b: u8)
        ensures
            final(self)@ == step(old(self)@, *n, b),
    {
        match self.mode {
            Mode::Tag => {
                if b == OPEN {
                    self.mode = Mode::Bracket;
                } else if b == CLOSE {
                    self.go_to(Mode::Code);
                } else {
                    self.tag.push(b);
                }
            },
            Mode::Bracket => {
                if b == CLOSE {
                    self.mode = Mode::BracketEnd(0);
                }
            },
            Mode::BracketEnd(m) => {
                if b == CLOSE && m == self.tag.len() {
                    self.go_to(Mode::Code);
                } else if b == CLOSE {
                    self.mode = Mode::BracketEnd(0);
                } else if m < self.tag.len() && b == self.tag[m] {
                    self.mode = Mode::BracketEnd(m + 1);
                } else {
                    self.mode = Mode::Bracket;
                }
            },
            mode => {
                self.go_to(go_on(mode, n, b));
            },
        }
    }

    /// Comes to the end of a line.
    fn end_line(&mut self)
        ensures
            final(self)@ == line_end(old(self)@),
    {
        match self.mode {
            Mode::Code | Mode::Escape | Mode::Hash | Mode::Comment | Mode::Tag => {
                self.go_to(Mode::Code);
            },
            Mode::Quoted | Mode::QuotedEscape => {
                self.go_to(Mode::Quoted);
            },
            Mode::Bar | Mode::BarEscape => {
                self.go_to(Mode::Bar);
            },
            Mode::Block(depth) | Mode::BlockBar(depth) | Mode::BlockHash(depth) => {
                self.go_to(Mode::Block(depth));
            },
            Mode::Bang | Mode::BangEnd => {
                self.go_to(Mode::Bang);
            },
            Mode::Ticks(run) => {
                self.go_to(Mode::Long(run, 0));
            },
            Mode::Long(run, _) => {
                self.go_to(Mode::Long(run, 0));
            },
            Mode::Bracket | Mode::BracketEnd(_) => {
                self.mode = Mode::Bracket;
            },
        }
    }

    /// Reads the line `b` and comes to its end.
    pub fn read_line(&mut self, n: &LanguageFeatures, b: &[u8])
        ensures
            final(self)@ == place_behind(b@, *n, old(self)@),
    {
        let ghost start = self@;
        let len: usize = b.len();
        let mut i: usize = 0;
        while i < len
            invariant
                0 <= i <= len,
                len == b@.len(),
                read(b@, *n, self@, i as int) == read(b@, *n, start, 0),
            decreases len - i,
        {
            self.read_byte(n, b[i]);
            i = i + 1;
        }
        self.end_line();
    }
}

/// A byte at the end is read last.
pub proof fn lemma_read_push(b: Seq<u8>, n: LanguageFeatures, p: PlaceView, i: int, last: u8)
    requires
        0 <= i <= b.len(),
    ensures
        read(b.push(last), n, p, i) == step(read(b, n, p, i), n, last),
    decreases b.len() - i,
{
    if i < b.len() {
        assert(b.push(last)[i] == b[i]);
        lemma_read_push(b, n, step(p, n, b[i]), i + 1, last);
    } else {
        assert(read(b.push(last), n, step(p, n, last), i + 1) == step(p, n, last));
    }
}

/// A space at the end of a line makes no difference behind the line.
pub proof fn lemma_space_at_line_end(b: Seq<u8>, n: LanguageFeatures, p: PlaceView)
    requires
        n.comment_char as u8 != 32,
    ensures
        place_behind(b.push(32), n, p) == place_behind(b, n, p),
{
    lemma_read_push(b, n, p, 0, 32);
}

} // verus!
