//! The reader: turns source text into a program, one character at a time.
use vstd::prelude::*;
use std::rc::Rc;
use crate::data_structures::{Coredata, Form, Location, Node, Program, Source, Sourcedata, Value, values_of};

verus! {

/// Relies on `String::push`: the character is appended.
#[verifier::external_body]
fn push_char(s: &mut String, c: char)
    ensures
        final(s)@ == old(s)@.push(c),
{
    s.push(c)
}

/// The characters with the Unicode `White_Space` property.
pub open spec fn is_white_space(c: char) -> bool {
    ('\u{9}' <= c && c <= '\u{d}') || c == ' ' || c == '\u{85}' || c == '\u{a0}' || c
        == '\u{1680}' || ('\u{2000}' <= c && c <= '\u{200a}') || c == '\u{2028}' || c
        == '\u{2029}' || c == '\u{202f}' || c == '\u{205f}' || c == '\u{3000}'
}

pub fn is_whitespace(c: char) -> (r: bool)
    ensures
        r == is_white_space(c),
{
    ('\u{9}' <= c && c <= '\u{d}') || c == ' ' || c == '\u{85}' || c == '\u{a0}' || c
        == '\u{1680}' || ('\u{2000}' <= c && c <= '\u{200a}') || c == '\u{2028}' || c
        == '\u{2029}' || c == '\u{202f}' || c == '\u{205f}' || c == '\u{3000}'
}

/// One more, short of overflow.
pub open spec fn bump(n: usize) -> usize {
    if n < usize::MAX {
        (n + 1) as usize
    } else {
        n
    }
}

/// The model of a `ParseState`.
pub struct Reader {
    pub position: Location,
    pub lexeme_start: Location,
    pub open: Seq<Location>,
    pub token: Seq<char>,
    pub stack: Seq<Seq<Value>>,
    pub error: Option<Seq<char>>,
}

/// What the reader holds between two characters.
pub struct ParseState {
    /// Where the next character stands.
    pub current_read_position: Source,
    /// Where the token being read began.
    pub start_of_current_lexeme: Source,
    /// Where each list still open began, the innermost last.
    pub unmatched_opening_parentheses: Vec<Source>,
    /// The characters of the token being read.
    pub token: String,
    /// The elements read so far: the top-level forms first, then those of
    /// each open list.
    pub stack: Vec<Vec<Node>>,
    pub error: Option<String>,
}

pub open spec fn message_of(e: Option<String>) -> Option<Seq<char>> {
    match e {
        Some(s) => Some(s@),
        None => None,
    }
}

impl View for ParseState {
    type V = Reader;

    open spec fn view(&self) -> Reader {
        Reader {
            position: self.current_read_position@,
            lexeme_start: self.start_of_current_lexeme@,
            open: self.unmatched_opening_parentheses@.map_values(|s: Source| s@),
            token: self.token@,
            stack: self.stack@.map_values(|f: Vec<Node>| values_of(f@)),
            error: message_of(self.error),
        }
    }
}

impl ParseState {
    /// One element list per open list, besides the top level.
    pub open spec fn wf(&self) -> bool {
        self.stack@.len() == self.unmatched_opening_parentheses@.len() + 1
    }
}

pub open spec fn wf_reader(r: Reader) -> bool {
    r.stack.len() == r.open.len() + 1
}

pub open spec fn unknown_location() -> Location {
    Location { line: 1, column: 1, source: "unknown"@ }
}

pub open spec fn start_reader(at: Location) -> Reader {
    Reader {
        position: at,
        lexeme_start: unknown_location(),
        open: seq![],
        token: seq![],
        stack: seq![seq![]],
        error: None,
    }
}

/// The position after reading `c` at `p`.
pub open spec fn next_position(p: Location, c: char) -> Location {
    if c == '\n' {
        Location { line: bump(p.line), column: 1, ..p }
    } else {
        Location { column: bump(p.column), ..p }
    }
}

/// Ends the token being read, if any: it becomes a symbol in the innermost
/// open list.
pub open spec fn flush(r: Reader) -> Reader {
    if r.token.len() == 0 {
        r
    } else {
        Reader {
            stack: r.stack.drop_last().push(
                r.stack.last().push(Value { at: Some(r.lexeme_start), form: Form::Symbol(r.token) }),
            ),
            token: seq![],
            ..r
        }
    }
}

/// A list of `items` all of whose cells, and its end, are located at `at`.
pub open spec fn located_list(items: Seq<Value>, at: Location) -> Value
    decreases items.len(),
{
    if items.len() == 0 {
        Value { at: Some(at), form: Form::Null }
    } else {
        Value {
            at: Some(at),
            form: Form::Pair(Box::new(items[0]), Box::new(located_list(items.drop_first(), at))),
        }
    }
}

pub open spec fn unmatched_closing_message() -> Seq<char> {
    "Unmatched closing parenthesis"@
}

pub open spec fn unmatched_opening_message() -> Seq<char> {
    "Unmatched opening parenthesis"@
}

/// What reading `c` does, before the position moves on.
pub open spec fn take_char(r: Reader, c: char) -> Reader {
    if is_white_space(c) {
        flush(r)
    } else if c == '(' {
        let f = flush(r);
        Reader { open: f.open.push(f.position), stack: f.stack.push(seq![]), ..f }
    } else if c == ')' {
        let f = flush(r);
        if f.open.len() == 0 {
            Reader { error: Some(unmatched_closing_message()), ..f }
        } else {
            let list = located_list(f.stack.last(), f.open.last());
            let outer = f.stack.drop_last();
            Reader {
                open: f.open.drop_last(),
                stack: outer.drop_last().push(outer.last().push(list)),
                ..f
            }
        }
    } else {
        Reader {
            lexeme_start: if r.token.len() == 0 {
                r.position
            } else {
                r.lexeme_start
            },
            token: r.token.push(c),
            ..r
        }
    }
}

/// Reading one character.
pub open spec fn read_char(r: Reader, c: char) -> Reader {
    let t = take_char(r, c);
    Reader { position: next_position(r.position, c), ..t }
}

/// Reading the characters of `s` in order, up to the first error.
pub open spec fn read_text(r: Reader, s: Seq<char>) -> Reader
    decreases s.len(),
{
    if s.len() == 0 {
        r
    } else {
        let p = read_text(r, s.drop_last());
        if p.error is Some {
            p
        } else {
            read_char(p, s.last())
        }
    }
}

/// The end of the text: the last token ends, and the top-level forms come
/// out if every list was closed and no error came up.
pub open spec fn finish(r: Reader) -> Result<Seq<Value>, Reader> {
    let f = flush(r);
    if f.open.len() > 0 {
        Err(Reader { error: Some(unmatched_opening_message()), ..f })
    } else if f.error is Some {
        Err(f)
    } else {
        Ok(f.stack[0])
    }
}

pub open spec fn outcome(r: Result<Program, ParseState>) -> Result<Seq<Value>, Reader> {
    match r {
        Ok(p) => Ok(values_of(p@)),
        Err(s) => Err(s@),
    }
}

impl Default for Source {
    fn default() -> (r: Source)
        ensures
            r@ == unknown_location(),
    {
        Source { line: 1, column: 1, source: String::from_str("unknown") }
    }
}

impl Default for ParseState {
    fn default() -> (r: ParseState)
        ensures
            r.wf(),
            r@ == start_reader(unknown_location()),
    {
        let mut stack: Vec<Vec<Node>> = Vec::new();
        let top: Vec<Node> = Vec::new();
        proof {
            assert(values_of(top@) =~= seq![]);
        }
        stack.push(top);
        let r = ParseState {
            current_read_position: Source::default(),
            start_of_current_lexeme: Source::default(),
            unmatched_opening_parentheses: Vec::new(),
            token: String::new(),
            stack,
            error: None,
        };
        proof {
            assert(r@.open =~= seq![]);
            assert(r@.stack =~= seq![seq![]]);
        }
        r
    }
}

impl ParseState {
    /// A state for reading the text of the source named `filename`.
    pub fn from_file(filename: &str) -> (r: ParseState)
        ensures
            r.wf(),
            r@ == start_reader(Location { line: 1, column: 1, source: filename@ }),
    {
        let mut state = ParseState::default();
        state.current_read_position = Source { line: 1, column: 1, source: String::from_str(filename) };
        state
    }
}

fn set_error(state: &mut ParseState, message: &str)
    ensures
        final(state)@ == (Reader { error: Some(message@), ..old(state)@ }),
        final(state).wf() == old(state).wf(),
{
    state.error = Some(String::from_str(message));
}

fn clear_token(state: &mut ParseState)
    ensures
        final(state)@ == (Reader { token: seq![], ..old(state)@ }),
        final(state).wf() == old(state).wf(),
{
    state.token = String::new();
}

/// Ends the token being read, if any: it becomes a symbol in the innermost
/// open list.
fn move_token_to_stack(state: &mut ParseState)
    requires
        old(state).wf(),
    ensures
        final(state).wf(),
        final(state)@ == flush(old(state)@),
{
    if !state.token.as_str().is_empty() {
        let symbol = Rc::new(
            Sourcedata(
                Some(state.start_of_current_lexeme.duplicate()),
                Coredata::Symbol(state.token.clone()),
            ),
        );
        match state.stack.pop() {
            Some(innermost) => {
                let mut innermost = innermost;
                let ghost items = innermost@;
                innermost.push(symbol);
                state.stack.push(innermost);
                proof {
                    assert(values_of(innermost@) =~= values_of(items).push(symbol@));
                    assert(state@.stack =~= old(state)@.stack.drop_last().push(
                        old(state)@.stack.last().push(symbol@),
                    ));
                }
            },
            None => {},
        }
        clear_token(state);
    }
}

fn whitespace(state: &mut ParseState)
    requires
        old(state).wf(),
    ensures
        final(state).wf(),
        final(state)@ == flush(old(state)@),
{
    move_token_to_stack(state);
}

fn copy_current_read_position_to_unmatched_opening_parentheses(state: &mut ParseState)
    ensures
        final(state)@ == (Reader {
            open: old(state)@.open.push(old(state)@.position),
            ..old(state)@
        }),
        final(state).stack@.len() == old(state).stack@.len(),
        final(state).unmatched_opening_parentheses@.len() == old(
            state,
        ).unmatched_opening_parentheses@.len() + 1,
{
    let at = state.current_read_position.duplicate();
    state.unmatched_opening_parentheses.push(at);
    proof {
        assert(state@.open =~= old(state)@.open.push(old(state)@.position));
    }
}

fn left_parenthesis(state: &mut ParseState)
    requires
        old(state).wf(),
    ensures
        final(state).wf(),
        final(state)@ == take_char(old(state)@, '('),
{
    move_token_to_stack(state);
    copy_current_read_position_to_unmatched_opening_parentheses(state);
    let ghost before = state@;
    let fresh: Vec<Node> = Vec::new();
    state.stack.push(fresh);
    proof {
        assert(values_of(fresh@) =~= seq![]);
        assert(state@.stack =~= before.stack.push(seq![]));
    }
}

/// A list of `items` all of whose cells, and its end, are located at `at`.
fn make_located_list(items: &Vec<Node>, at: &Source) -> (r: Node)
    ensures
        r@ == located_list(values_of(items@), at@),
{
    let mut list = Rc::new(Sourcedata(Some(at.duplicate()), Coredata::Null));
    let mut i: usize = items.len();
    while i > 0
        invariant
            i <= items@.len(),
            list@ == located_list(values_of(items@).subrange(i as int, items@.len() as int), at@),
        decreases i,
    {
        i = i - 1;
        let cell = Rc::new(
            Sourcedata(Some(at.duplicate()), Coredata::Pair(items[i].clone(), list)),
        );
        proof {
            let s = values_of(items@);
            assert(s.subrange(i as int, s.len() as int).drop_first() =~= s.subrange(
                i + 1,
                s.len() as int,
            ));
        }
        list = cell;
    }
    proof {
        assert(values_of(items@).subrange(0, items@.len() as int) =~= values_of(items@));
    }
    list
}

fn right_parenthesis(state: &mut ParseState)
    requires
        old(state).wf(),
    ensures
        final(state).wf(),
        final(state)@ == take_char(old(state)@, ')'),
{
    move_token_to_stack(state);
    let ghost f = state@;
    match state.unmatched_opening_parentheses.pop() {
        None => {
            set_error(state, "Unmatched closing parenthesis");
        },
        Some(at) => {
            let items = match state.stack.pop() {
                Some(items) => items,
                None => Vec::new(),
            };
            let list = make_located_list(&items, &at);
            match state.stack.pop() {
                Some(outer) => {
                    let mut outer = outer;
                    let ghost held = outer@;
                    outer.push(list);
                    state.stack.push(outer);
                    proof {
                        assert(values_of(outer@) =~= values_of(held).push(list@));
                    }
                },
                None => {},
            }
            proof {
                assert(state@.open =~= f.open.drop_last());
                assert(state@.stack =~= f.stack.drop_last().drop_last().push(
                    f.stack.drop_last().last().push(located_list(f.stack.last(), f.open.last())),
                ));
            }
        },
    }
}

fn otherwise(character: char, state: &mut ParseState)
    requires
        !is_white_space(character),
        character != '(',
        character != ')',
    ensures
        final(state).wf() == old(state).wf(),
        final(state)@ == take_char(old(state)@, character),
{
    if state.token.as_str().is_empty() {
        state.start_of_current_lexeme = state.current_read_position.duplicate();
    }
    push_char(&mut state.token, character);
}

fn parse_internal(character: char, state: &mut ParseState)
    requires
        old(state).wf(),
    ensures
        final(state).wf(),
        final(state)@ == take_char(old(state)@, character),
{
    if is_whitespace(character) {
        whitespace(state);
    } else if character == '(' {
        left_parenthesis(state);
    } else if character == ')' {
        right_parenthesis(state);
    } else {
        otherwise(character, state);
    }
}

fn count_characters_and_lines(character: char, state: &mut ParseState)
    ensures
        final(state).wf() == old(state).wf(),
        final(state)@ == (Reader {
            position: next_position(old(state)@.position, character),
            ..old(state)@
        }),
{
    if character == '\n' {
        state.current_read_position.line = state.current_read_position.line.saturating_add(1);
        state.current_read_position.column = 1;
    } else {
        state.current_read_position.column = state.current_read_position.column.saturating_add(1);
    }
}

/// Reads one character.
pub fn parse_character(character: char, state: &mut ParseState)
    requires
        old(state).wf(),
    ensures
        final(state).wf(),
        final(state)@ == read_char(old(state)@, character),
{
    parse_internal(character, state);
    count_characters_and_lines(character, state);
}

/// Ends the text: the last token ends, and the top-level forms come out if
/// every list was closed and no error came up; else the state, with its
/// error.
pub fn finish_parsing_characters(state: ParseState) -> (r: Result<Program, ParseState>)
    requires
        state.wf(),
    ensures
        outcome(r) == finish(state@),
{
    let mut state = state;
    whitespace(&mut state);
    if state.unmatched_opening_parentheses.len() > 0 {
        set_error(&mut state, "Unmatched opening parenthesis");
        Err(state)
    } else if state.error.is_some() {
        Err(state)
    } else {
        let ghost f = state@;
        let mut stack = state.stack;
        match stack.pop() {
            Some(forms) => {
                proof {
                    assert(values_of(forms@) == f.stack[0]);
                }
                Ok(forms)
            },
            None => Ok(Vec::new()),
        }
    }
}

/// Reads `string` from `state` and ends the text.
pub fn parse_string_with_state(string: &str, state: ParseState) -> (r: Result<Program, ParseState>)
    requires
        state.wf(),
    ensures
        outcome(r) == finish(read_text(state@, string@)),
{
    let ghost start = state@;
    let mut state = state;
    for character in it: string.chars()
        invariant
            state.wf(),
            it.seq() == string@,
            state@ == read_text(start, string@.take(it.index() as int)),
    {
        proof {
            assert(string@.take(it.index() + 1).drop_last() =~= string@.take(it.index() as int));
        }
        if state.error.is_none() {
            parse_character(character, &mut state);
        }
    }
    proof {
        assert(string@.take(string@.len() as int) =~= string@);
    }
    finish_parsing_characters(state)
}

/// Reads a program from source text.
pub fn parse_string(string: &str) -> (r: Result<Program, ParseState>)
    ensures
        outcome(r) == finish(read_text(start_reader(unknown_location()), string@)),
{
    let state = ParseState::default();
    parse_string_with_state(string, state)
}

/// How many more `(` than `)` the text holds.
pub open spec fn nesting(s: Seq<char>) -> int
    decreases s.len(),
{
    if s.len() == 0 {
        0
    } else if s.last() == '(' {
        nesting(s.drop_last()) + 1
    } else if s.last() == ')' {
        nesting(s.drop_last()) - 1
    } else {
        nesting(s.drop_last())
    }
}

/// Every `)` closes an earlier `(`, and every `(` is closed.
pub open spec fn balanced(s: Seq<char>) -> bool {
    &&& nesting(s) == 0
    &&& forall|i: int| 0 <= i <= s.len() ==> nesting(#[trigger] s.take(i)) >= 0
}

pub proof fn lemma_read_prefix(at: Location, s: Seq<char>, k: int)
    requires
        0 <= k <= s.len(),
    ensures
        wf_reader(read_text(start_reader(at), s.take(k))),
        read_text(start_reader(at), s.take(k)).error is None <==> forall|i: int|
            0 <= i <= k ==> nesting(#[trigger] s.take(i)) >= 0,
        read_text(start_reader(at), s.take(k)).error is None ==> read_text(
            start_reader(at),
            s.take(k),
        ).open.len() == nesting(s.take(k)),
    decreases k,
{
    let r = read_text(start_reader(at), s.take(k));
    if k == 0 {
        assert(s.take(0) =~= seq![]);
        assert forall|i: int| 0 <= i <= k implies nesting(#[trigger] s.take(i)) >= 0 by {
            assert(s.take(i) =~= seq![]);
        }
    } else {
        lemma_read_prefix(at, s, k - 1);
        let prefix = s.take(k);
        assert(prefix.drop_last() =~= s.take(k - 1));
        assert(prefix.last() == s[k - 1]);
        let p = read_text(start_reader(at), s.take(k - 1));
        if p.error is None {
            let c = s[k - 1];
            let f = flush(p);
            assert(f.open == p.open && f.error == p.error && f.stack.len() == p.stack.len());
            if !is_white_space(c) && c == ')' && f.open.len() == 0 {
                assert(nesting(s.take(k)) < 0);
            }
        } else {
            assert(!(forall|i: int| 0 <= i <= k - 1 ==> nesting(#[trigger] s.take(i)) >= 0));
            let j = choose|j: int| 0 <= j <= k - 1 && nesting(#[trigger] s.take(j)) < 0;
            assert(0 <= j <= k && nesting(s.take(j)) < 0);
        }
    }
}

/// A text reads into a program exactly when its parentheses balance.
pub proof fn lemma_reads_when_balanced(at: Location, s: Seq<char>)
    ensures
        finish(read_text(start_reader(at), s)) is Ok <==> balanced(s),
{
    lemma_read_prefix(at, s, s.len() as int);
    assert(s.take(s.len() as int) =~= s);
    let r = read_text(start_reader(at), s);
    let f = flush(r);
    assert(f.open == r.open && f.error == r.error);
}

} // verus!
