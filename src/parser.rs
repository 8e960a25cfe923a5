//! Recursive-descent parser from text to expression trees.
use vstd::prelude::*;
use crate::chars::{
    decimal, in_class, is_digit, lemma_decimal_prefix, lemma_run_end, member, run_end, to_chars,
    CharClass,
};
use crate::sexpr::{lemma_list_view, models, Expr, Sexpr, DEFAULT_DEPTH_LIMIT};

verus! {

/// Why a text is not an expression.
#[derive(Clone, Copy, Debug, PartialEq, Eq)]
pub enum ParseError {
    /// The input ended while a list was still open.
    UnterminatedList,
    /// No expression starts at the cursor.
    UnexpectedCharacter,
    /// A numeral exceeds the 32-bit signed range.
    NumberOverflow,
    /// Lists are nested deeper than the parser's limit.
    RecursionLimitExceeded,
}

pub type ParseResult = Result<Sexpr, ParseError>;

/// The model of a parse result.
pub open spec fn parse_model(r: ParseResult) -> Result<Expr, ParseError> {
    match r {
        Ok(e) => Ok(e@),
        Err(x) => Err(x),
    }
}

/// The characters of the word `nil`.
pub open spec fn nil_word() -> Seq<char> {
    seq!['n', 'i', 'l']
}

/// The numeral that starts at `p`: its maximal run of digits.
pub open spec fn parse_numeral(s: Seq<char>, p: int) -> Result<(Expr, int), ParseError> {
    let e = run_end(s, p, CharClass::Digit);
    let v = decimal(s.subrange(p, e));
    if v <= i32::MAX {
        Ok((Expr::Int(v as i32), e))
    } else {
        Err(ParseError::NumberOverflow)
    }
}

/// The word that starts at `p`: its maximal run of identifier characters,
/// where the word `nil` stands for `Nil`.
pub open spec fn parse_word(s: Seq<char>, p: int) -> Result<(Expr, int), ParseError> {
    let e = run_end(s, p, CharClass::Ident);
    if e == p {
        Err(ParseError::UnexpectedCharacter)
    } else if s.subrange(p, e) == nil_word() {
        Ok((Expr::Nil, e))
    } else {
        Ok((Expr::Symbol(s.subrange(p, e)), e))
    }
}

/// The expression that starts at `p`, where at most `depth` lists may be
/// open, and the position after it.
pub open spec fn parse_item(s: Seq<char>, p: int, depth: nat) -> Result<(Expr, int), ParseError>
    decreases s.len() - p, 1int,
{
    if !(0 <= p < s.len()) {
        Err(ParseError::UnexpectedCharacter)
    } else if is_digit(s[p]) {
        parse_numeral(s, p)
    } else if s[p] == '(' {
        if depth == 0 {
            Err(ParseError::RecursionLimitExceeded)
        } else {
            parse_elements(s, p + 1, (depth - 1) as nat, Seq::empty())
        }
    } else {
        parse_word(s, p)
    }
}

/// The rest of a list whose elements so far are `acc`, from `p` on, and the
/// position after its closing parenthesis.
pub open spec fn parse_elements(s: Seq<char>, p: int, depth: nat, acc: Seq<Expr>) -> Result<
    (Expr, int),
    ParseError,
>
    decreases s.len() - p, 2int,
{
    if !(0 <= p < s.len()) {
        Err(ParseError::UnterminatedList)
    } else if in_class(s[p], CharClass::Space) {
        parse_elements(s, p + 1, depth, acc)
    } else if s[p] == ')' {
        Ok((Expr::List(acc), p + 1))
    } else {
        match parse_item(s, p, depth) {
            Err(x) => Err(x),
            Ok((e, q)) => if p < q <= s.len() {
                parse_elements(s, q, depth, acc.push(e))
            } else {
                Err(ParseError::UnexpectedCharacter)
            },
        }
    }
}

/// What parsing from `p` gives, with at most `depth` lists open: `Nil` where
/// only whitespace is left, else the expression that starts after the
/// whitespace.
pub open spec fn parse_from(s: Seq<char>, p: int, depth: nat) -> Result<Expr, ParseError> {
    let q = run_end(s, p, CharClass::Space);
    if q >= s.len() {
        Ok(Expr::Nil)
    } else {
        match parse_item(s, q, depth) {
            Ok((e, _)) => Ok(e),
            Err(x) => Err(x),
        }
    }
}

/// What parsing the text `s` gives, with lists nested at most `depth` deep.
pub open spec fn parse_text(s: Seq<char>, depth: nat) -> Result<Expr, ParseError> {
    parse_from(s, 0, depth)
}

/// The model of a result of the parser's steps, with the cursor `q` after it.
pub open spec fn step_model(r: ParseResult, q: int) -> Result<(Expr, int), ParseError> {
    match r {
        Ok(e) => Ok((e@, q)),
        Err(x) => Err(x),
    }
}

/// Whitespace before the next element of a list changes nothing.
pub proof fn lemma_elements_skip_space(s: Seq<char>, p: int, depth: nat, acc: Seq<Expr>)
    requires
        0 <= p <= s.len(),
    ensures
        parse_elements(s, p, depth, acc) == parse_elements(
            s,
            run_end(s, p, CharClass::Space),
            depth,
            acc,
        ),
    decreases s.len() - p,
{
    if p < s.len() && in_class(s[p], CharClass::Space) {
        lemma_elements_skip_space(s, p + 1, depth, acc);
    }
}

/// A cursor over the text being parsed.
struct Parser {
    pos: usize,
    input: String,
    chars: Vec<char>,
}

impl Parser {
    spec fn wf(&self) -> bool {
        &&& self.chars@ == self.input@
        &&& self.pos <= self.chars.len()
    }

    spec fn same_text(&self, other: &Parser) -> bool {
        &&& self.chars == other.chars
        &&& self.input == other.input
    }

    /// Whether all input is consumed.
    fn eof(&self) -> (r: bool)
        ensures
            r == (self.pos >= self.chars.len()),
    {
        self.pos >= self.chars.len()
    }

    /// The character at the cursor, if any.
    fn next_char(&self) -> (r: Option<char>)
        ensures
            r == (if self.pos < self.chars.len() {
                Some(self.chars@[self.pos as int])
            } else {
                None
            }),
    {
        if self.pos < self.chars.len() {
            Some(self.chars[self.pos])
        } else {
            None
        }
    }

    /// The character at the cursor; the cursor moves past it.
    fn consume_char(&mut self) -> (c: char)
        requires
            old(self).wf(),
            old(self).pos < old(self).chars.len(),
        ensures
            final(self).wf(),
            final(self).same_text(old(self)),
            c == old(self).chars@[old(self).pos as int],
            final(self).pos == old(self).pos + 1,
    {
        let c = self.chars[self.pos];
        self.pos = self.pos + 1;
        c
    }

    /// Moves the cursor past the longest run of characters of class `k`.
    fn consume_while(&mut self, k: CharClass)
        requires
            old(self).wf(),
        ensures
            final(self).wf(),
            final(self).same_text(old(self)),
            final(self).pos == run_end(old(self).chars@, old(self).pos as int, k),
    {
        let ghost s = self.chars@;
        let ghost start = *self;
        let ghost p0 = self.pos as int;
        while self.pos < self.chars.len() && member(self.chars[self.pos], k)
            invariant
                self.wf(),
                self.chars@ == s,
                self.same_text(&start),
                p0 <= self.pos,
                run_end(s, p0, k) == run_end(s, self.pos as int, k),
            decreases self.chars.len() - self.pos,
        {
            self.pos = self.pos + 1;
        }
    }

    /// Moves the cursor past whitespace.
    fn consume_whitespace(&mut self)
        requires
            old(self).wf(),
        ensures
            final(self).wf(),
            final(self).same_text(old(self)),
            final(self).pos == run_end(old(self).chars@, old(self).pos as int, CharClass::Space),
    {
        self.consume_while(CharClass::Space);
    }

    /// Reads the numeral at the cursor.
    fn parse_number(&mut self) -> (r: ParseResult)
        requires
            old(self).wf(),
            old(self).pos < old(self).chars.len(),
            is_digit(old(self).chars@[old(self).pos as int]),
        ensures
            final(self).wf(),
            final(self).same_text(old(self)),
            step_model(r, final(self).pos as int) == parse_numeral(
                old(self).chars@,
                old(self).pos as int,
            ),
    {
        let ghost s = self.chars@;
        let start = self.pos;
        self.consume_while(CharClass::Digit);
        let end = self.pos;
        proof {
            lemma_run_end(s, start as int, CharClass::Digit);
        }
        let ghost digits = s.subrange(start as int, end as int);
        let mut value: i32 = 0;
        let mut i: usize = start;
        while i < end
            invariant
                self.wf(),
                self.chars@ == s,
                self.same_text(old(self)),
                s == old(self).chars@,
                start == old(self).pos,
                start <= i <= end == self.pos <= s.len(),
                end == run_end(s, start as int, CharClass::Digit),
                digits == s.subrange(start as int, end as int),
                forall|j: int| start <= j < end ==> is_digit(#[trigger] s[j]),
                0 <= value,
                value == decimal(s.subrange(start as int, i as int)),
            decreases end - i,
        {
            let d = (self.chars[i] as u32 - '0' as u32) as i64;
            let next: i64 = value as i64 * 10 + d;
            assert(s.subrange(start as int, i + 1).drop_last() =~= s.subrange(start as int, i as int));
            assert(s.subrange(start as int, i + 1).last() == s[i as int]);
            assert(next == decimal(s.subrange(start as int, i + 1)));
            if next > i32::MAX as i64 {
                proof {
                    assert(digits.subrange(0, i + 1 - start) =~= s.subrange(start as int, i + 1));
                    lemma_decimal_prefix(digits, i + 1 - start);
                }
                return Err(ParseError::NumberOverflow);
            }
            value = next as i32;
            i = i + 1;
        }
        Ok(Sexpr::Int(value))
    }

    /// Reads the word at the cursor.
    fn parse_symbol(&mut self) -> (r: ParseResult)
        requires
            old(self).wf(),
        ensures
            final(self).wf(),
            final(self).same_text(old(self)),
            step_model(r, final(self).pos as int) == parse_word(
                old(self).chars@,
                old(self).pos as int,
            ),
    {
        let ghost s = self.chars@;
        let start = self.pos;
        self.consume_while(CharClass::Ident);
        let end = self.pos;
        proof {
            lemma_run_end(s, start as int, CharClass::Ident);
        }
        if end == start {
            return Err(ParseError::UnexpectedCharacter);
        }
        if end - start == 3 && self.chars[start] == 'n' && self.chars[start + 1] == 'i'
            && self.chars[start + 2] == 'l' {
            assert(s.subrange(start as int, end as int) =~= nil_word());
            return Ok(Sexpr::Nil);
        }
        proof {
            let w = s.subrange(start as int, end as int);
            let nil = nil_word();
            assert(nil.len() == 3 && nil[0] == 'n' && nil[1] == 'i' && nil[2] == 'l');
            if w == nil {
                assert(w[0] == s[start as int]);
                assert(w[1] == s[start + 1]);
                assert(w[2] == s[start + 2]);
            }
        }
        let text = self.input.as_str().substring_char(start, end).to_owned();
        Ok(Sexpr::Symbol(text))
    }
    /// Reads the expression at the cursor, with at most `depth` lists open.
    fn do_parse(&mut self, depth: usize) -> (r: ParseResult)
        requires
            old(self).wf(),
        ensures
            final(self).wf(),
            final(self).same_text(old(self)),
            step_model(r, final(self).pos as int) == parse_item(
                old(self).chars@,
                old(self).pos as int,
                depth as nat,
            ),
            r is Ok ==> old(self).pos < final(self).pos,
        decreases old(self).chars.len() - old(self).pos, 1int,
    {
        match self.next_char() {
            None => Err(ParseError::UnexpectedCharacter),
            Some(c) => {
                if crate::chars::digit(c) {
                    proof {
                        lemma_run_end(self.chars@, self.pos + 1, CharClass::Digit);
                    }
                    self.parse_number()
                } else if c == '(' {
                    if depth == 0 {
                        Err(ParseError::RecursionLimitExceeded)
                    } else {
                        self.consume_char();
                        self.parse_list(depth - 1)
                    }
                } else {
                    let ghost s = self.chars@;
                    let ghost p = self.pos as int;
                    let r = self.parse_symbol();
                    proof {
                        lemma_run_end(s, p, CharClass::Ident);
                    }
                    r
                }
            },
        }
    }

    /// Reads the elements of a list whose opening parenthesis is consumed,
    /// and its closing parenthesis.
    fn parse_list(&mut self, depth: usize) -> (r: ParseResult)
        requires
            old(self).wf(),
        ensures
            final(self).wf(),
            final(self).same_text(old(self)),
            step_model(r, final(self).pos as int) == parse_elements(
                old(self).chars@,
                old(self).pos as int,
                depth as nat,
                Seq::empty(),
            ),
            r is Ok ==> old(self).pos < final(self).pos,
        decreases old(self).chars.len() - old(self).pos, 2int,
    {
        let ghost s = self.chars@;
        let mut children: Vec<Box<Sexpr>> = Vec::new();
        let ghost mut acc: Seq<Expr> = Seq::empty();
        loop
            invariant
                self.wf(),
                self.same_text(old(self)),
                s == old(self).chars@,
                old(self).pos <= self.pos,
                acc.len() == children.len(),
                forall|i: int| 0 <= i < acc.len() ==> acc[i] == (*#[trigger] children@[i])@,
                parse_elements(s, old(self).pos as int, depth as nat, Seq::empty())
                    == parse_elements(s, self.pos as int, depth as nat, acc),
            decreases s.len() - self.pos,
        {
            proof {
                lemma_elements_skip_space(s, self.pos as int, depth as nat, acc);
                lemma_run_end(s, self.pos as int, CharClass::Space);
            }
            self.consume_whitespace();
            match self.next_char() {
                None => {
                    return Err(ParseError::UnterminatedList);
                },
                Some(c) => {
                    if c == ')' {
                        self.consume_char();
                        proof {
                            lemma_list_view(children);
                            assert forall|i: int| 0 <= i < acc.len() implies models(children@)[i]
                                == acc[i] by {
                                assert(acc[i] == (*children@[i])@);
                            }
                            assert(models(children@) =~= acc);
                        }
                        let list = Sexpr::List(children);
                        return Ok(list);
                    } else {
                        match self.do_parse(depth) {
                            Err(x) => {
                                return Err(x);
                            },
                            Ok(child) => {
                                let ghost e = child@;
                                children.push(Box::new(child));
                                proof {
                                    acc = acc.push(e);
                                }
                            },
                        }
                    }
                },
            }
        }
    }

    /// Reads what follows the cursor: `Nil` where only whitespace is left,
    /// else the expression after the whitespace.
    fn parse(&mut self, depth: usize) -> (r: ParseResult)
        requires
            old(self).wf(),
        ensures
            final(self).wf(),
            final(self).same_text(old(self)),
            parse_model(r) == parse_from(old(self).chars@, old(self).pos as int, depth as nat),
            run_end(old(self).chars@, old(self).pos as int, CharClass::Space)
                >= old(self).chars.len() ==> final(self).pos == run_end(
                old(self).chars@,
                old(self).pos as int,
                CharClass::Space,
            ),
            run_end(old(self).chars@, old(self).pos as int, CharClass::Space)
                < old(self).chars.len() ==> step_model(r, final(self).pos as int) == parse_item(
                old(self).chars@,
                run_end(old(self).chars@, old(self).pos as int, CharClass::Space),
                depth as nat,
            ),
    {
        self.consume_whitespace();
        if self.eof() {
            Ok(Sexpr::Nil)
        } else {
            self.do_parse(depth)
        }
    }
}

/// Parses `source` with lists nested at most `limit` deep.
pub fn parse_with_limit(source: String, limit: usize) -> (r: ParseResult)
    ensures
        parse_model(r) == parse_text(source@, limit as nat),
{
    let chars = to_chars(source.as_str());
    let mut parser = Parser { pos: 0, input: source, chars };
    parser.parse(limit)
}

/// Parses `source`: the first expression in it, or `Nil` where it holds only
/// whitespace.
pub fn parse(source: String) -> (r: ParseResult)
    ensures
        parse_model(r) == parse_text(source@, DEFAULT_DEPTH_LIMIT as nat),
{
    parse_with_limit(source, DEFAULT_DEPTH_LIMIT)
}

} // verus!
