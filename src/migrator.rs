use vstd::prelude::*;
use vstd::string::*;
use vstd::utf8::encode_utf8;

verus! {

/// A token of the source: where it starts and its text.
pub struct Token {
    pub line: u32,
    pub column: u32,
    pub text: String,
}

/// A token with the comments that follow it.
pub struct VerylToken {
    pub token: Token,
    pub comments: Vec<Token>,
}

/// The output text and the position where the next character goes.
pub struct MigrateState {
    pub text: Seq<char>,
    pub line: u32,
    pub column: u32,
}

pub open spec fn sat_add(a: u32, b: int) -> u32 {
    if a + b > u32::MAX { u32::MAX } else { (a + b) as u32 }
}

/// `n` copies of `c`.
pub open spec fn repeat(c: char, n: nat) -> Seq<char>
    decreases n,
{
    if n == 0 { Seq::empty() } else { repeat(c, (n - 1) as nat).push(c) }
}

/// The number of line feeds in `s`.
pub open spec fn count_newlines(s: Seq<char>) -> nat
    decreases s.len(),
{
    if s.len() == 0 {
        0
    } else {
        count_newlines(s.drop_last()) + if s.last() == '\n' { 1nat } else { 0nat }
    }
}

/// Emitting a token at (`line`, `column`): line feeds down to its line,
/// spaces over to its column, then its text. A text with line feeds moves
/// the position down that many lines, to column 1; one without moves the
/// column right by its length in UTF-8 bytes. Positions saturate at `u32::MAX`.
pub open spec fn push_token_spec(s: MigrateState, line: u32, column: u32, text: Seq<char>) -> MigrateState {
    let newlines: nat = if line > s.line { (line - s.line) as nat } else { 0 };
    let col0: u32 = if newlines > 0 { 1 } else { s.column };
    let spaces: nat = if column > col0 { (column - col0) as nat } else { 0 };
    let col1: u32 = (col0 + spaces) as u32;
    let n = count_newlines(text);
    MigrateState {
        text: s.text + repeat('\n', newlines) + repeat(' ', spaces) + text,
        line: sat_add(line, n as int),
        column: if n > 0 { 1 } else { sat_add(col1, encode_utf8(text).len() as int) },
    }
}

/// Emitting a token and then its comments.
pub open spec fn token_spec(s: MigrateState, x: VerylToken) -> MigrateState {
    comments_spec(push_token_spec(s, x.token.line, x.token.column, x.token.text@), x.comments@)
}

pub open spec fn comments_spec(s: MigrateState, cs: Seq<Token>) -> MigrateState
    decreases cs.len(),
{
    if cs.len() == 0 {
        s
    } else {
        let t = cs.last();
        push_token_spec(comments_spec(s, cs.drop_last()), t.line, t.column, t.text@)
    }
}

pub open spec fn tokens_spec(s: MigrateState, ts: Seq<VerylToken>) -> MigrateState
    decreases ts.len(),
{
    if ts.len() == 0 {
        s
    } else {
        token_spec(tokens_spec(s, ts.drop_last()), ts.last())
    }
}

/// Re-emits source tokens at their positions.
pub struct Migrator {
    string: String,
    line: u32,
    column: u32,
}

impl View for Migrator {
    type V = MigrateState;

    closed spec fn view(&self) -> MigrateState {
        MigrateState { text: self.string@, line: self.line, column: self.column }
    }
}

impl Migrator {
    pub fn new() -> (r: Migrator)
        ensures
            r@ == (MigrateState { text: Seq::empty(), line: 1, column: 1 }),
    {
        Migrator { string: String::new(), line: 1, column: 1 }
    }

    /// Emits the token stream of a source, in order.
    pub fn migrate(&mut self, input: &Vec<VerylToken>)
        ensures
            final(self)@ == tokens_spec(old(self)@, input@),
    {
        let mut i: usize = 0;
        assert(input@.take(0) =~= Seq::<VerylToken>::empty());
        while i < input.len()
            invariant
                i <= input@.len(),
                self@ == tokens_spec(old(self)@, input@.take(i as int)),
            decreases input@.len() - i,
        {
            proof {
                let t = input@.take(i + 1);
                assert(t.drop_last() =~= input@.take(i as int));
                assert(t.last() == input@[i as int]);
            }
            self.token(&input[i]);
            i = i + 1;
        }
        assert(input@.take(i as int) =~= input@);
    }

    pub fn as_str(&self) -> (r: &str)
        ensures
            r@ == self@.text,
    {
        self.string.as_str()
    }

    fn str(&mut self, x: &str)
        ensures
            final(self)@ == (MigrateState { text: old(self)@.text + x@, ..old(self)@ }),
    {
        self.string.append(x);
    }

    fn repeat_char(&mut self, newline: bool, n: u32)
        ensures
            final(self)@ == (MigrateState { text: old(self)@.text + repeat(if newline { '\n' } else { ' ' }, n as nat), ..old(self)@ }),
    {
        let ghost c = if newline { '\n' } else { ' ' };
        let mut k: u32 = 0;
        while k < n
            invariant
                k <= n,
                c == (if newline { '\n' } else { ' ' }),
                self@ == (MigrateState { text: old(self)@.text + repeat(c, k as nat), ..old(self)@ }),
            decreases n - k,
        {
            let ghost before = self@.text;
            if newline {
                proof {
                    reveal_strlit("\n");
                    assert("\n"@ =~= seq!['\n']);
                }
                self.str("\n");
                assert(self@.text =~= before + seq!['\n']);
            } else {
                proof {
                    reveal_strlit(" ");
                    assert(" "@ =~= seq![' ']);
                }
                self.str(" ");
                assert(self@.text =~= before + seq![' ']);
            }
            assert(self@.text =~= before + seq![c]);
            assert(repeat(c, (k + 1) as nat) == repeat(c, k as nat).push(c));
            assert(old(self)@.text + repeat(c, (k + 1) as nat) =~= old(self)@.text + repeat(c, k as nat) + seq![c]);
            k = k + 1;
        }
    }

    fn push_token(&mut self, x: &Token)
        ensures
            final(self)@ == push_token_spec(old(self)@, x.line, x.column, x.text@),
    {
        let newlines: u32 = if x.line > self.line { x.line - self.line } else { 0 };
        self.line = x.line;
        if newlines > 0 {
            self.column = 1;
        }
        let spaces: u32 = if x.column > self.column { x.column - self.column } else { 0 };
        self.column = self.column + spaces;
        self.repeat_char(true, newlines);
        self.repeat_char(false, spaces);

        let text = x.text.as_str();
        let len = text.unicode_len();
        let mut n: u32 = 0;
        let mut saw_newline = false;
        let mut i: usize = 0;
        while i < len
            invariant
                len == text@.len(),
                i <= len,
                n as nat == if count_newlines(text@.take(i as int)) > u32::MAX { u32::MAX as nat } else { count_newlines(text@.take(i as int)) },
                saw_newline == (count_newlines(text@.take(i as int)) > 0),
            decreases len - i,
        {
            let c = text.get_char(i);
            proof {
                let t = text@.take(i + 1);
                assert(t.drop_last() =~= text@.take(i as int));
                assert(t.last() == c);
            }
            if c == '\n' {
                if n < u32::MAX {
                    n = n + 1;
                }
                saw_newline = true;
            }
            i = i + 1;
        }
        assert(text@.take(len as int) =~= text@);
        self.line = if self.line as u64 + n as u64 > u32::MAX as u64 { u32::MAX } else { self.line + n };
        if saw_newline {
            self.column = 1;
        } else {
            let bytes: usize = text.as_bytes().len();
            self.column = if self.column as u128 + bytes as u128 > u32::MAX as u128 { u32::MAX } else { self.column + bytes as u32 };
        }
        self.str(text);
    }

    fn token(&mut self, x: &VerylToken)
        ensures
            final(self)@ == token_spec(old(self)@, *x),
    {
        self.push_token(&x.token);
        let ghost s1 = self@;
        let mut i: usize = 0;
        assert(x.comments@.take(0) =~= Seq::<Token>::empty());
        while i < x.comments.len()
            invariant
                i <= x.comments@.len(),
                self@ == comments_spec(s1, x.comments@.take(i as int)),
                s1 == push_token_spec(old(self)@, x.token.line, x.token.column, x.token.text@),
            decreases x.comments@.len() - i,
        {
            proof {
                let t = x.comments@.take(i + 1);
                assert(t.drop_last() =~= x.comments@.take(i as int));
                assert(t.last() == x.comments@[i as int]);
            }
            self.push_token(&x.comments[i]);
            i = i + 1;
        }
        assert(x.comments@.take(i as int) =~= x.comments@);
    }
}

} // verus!
