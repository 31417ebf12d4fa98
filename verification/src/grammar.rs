//! The grammar model and the declarative description language it is parsed
//! from.
//!
//! A grammar is an ordered list of non-terminals; each non-terminal is a
//! non-empty list of productions; each production is a non-empty list of
//! symbols (byte or LEB128 literals, and named bound symbols) closed by a
//! right-hand-side tag.  The model also computes each production's literal
//! prefix — the discriminator the decoder dispatches on — and checks that a
//! union's prefixes never collide.

use vstd::prelude::*;

use crate::codec::sleb64_encode;
use crate::codec::uleb64_encode;
use crate::leb::sleb;
use crate::leb::uleb;

verus! {

/// A grammar: ordered sequence of non-terminals.
#[derive(Debug, PartialEq)]
pub struct Grammar {
    pub non_terminals: Vec<NonTerminal>,
}

/// A named rule with a non-empty list of productions.
#[derive(Debug, PartialEq)]
pub struct NonTerminal {
    pub name: String,
    /// Non-empty list of productions
    pub productions: Vec<Production>,
}

/// One alternative of a non-terminal.
#[derive(Debug, PartialEq)]
pub struct Production {
    /// Non-empty list of symbols
    pub symbols: Vec<Symbol>,
    /// Right-hand side of a production. This identifier is used as the enum
    /// variant name in unions; for records it names the constructor.
    pub rhs: String,
}

/// One symbol of a production.
#[derive(Debug, PartialEq)]
pub enum Symbol {
    /// A byte or LEB128-encoded integer literal.
    Literal(Literal),
    /// A symbol bound to a name: `a:...`
    Bound(String, BoundSymbol),
}

/// A tagged integer literal with a canonical byte encoding.
#[derive(Debug, PartialEq, Clone, Copy)]
pub enum Literal {
    U8(u8),
    U32(u32),
    I32(i32),
    U64(u64),
    I64(i64),
}

/// The shape of a bound symbol.
#[derive(Debug, PartialEq)]
pub enum BoundSymbol {
    /// A length-prefixed vector: `vec(<type>)`
    Vec(String),
    /// Zero or more things: `repeated(<type>)`, with no length prefix.
    Repeated(String),
    /// A size-prefixed block: `sized(<type>)`
    Sized(Box<BoundSymbol>),
    /// A built-in type: `name`, `u32`.
    Builtin(BuiltinSymbol),
    /// A reference to another non-terminal.
    Type(String),
}

/// The built-in shapes a bound symbol can name directly.
#[derive(Debug, PartialEq)]
pub enum BuiltinSymbol {
    Name,
    U32,
}

/// Canonical byte encoding of a literal: a raw byte for `U8`, LEB128 for the
/// typed integer literals.
pub open spec fn lit_bytes(l: Literal) -> Seq<u8> {
    match l {
        Literal::U8(v) => seq![v],
        Literal::U32(v) => uleb(v as nat),
        Literal::U64(v) => uleb(v as nat),
        Literal::I32(v) => sleb(v as int),
        Literal::I64(v) => sleb(v as int),
    }
}

/// The literal prefix of a symbol list: the concatenated canonical bytes of
/// its leading literals, up to the first bound symbol.
pub open spec fn prefix_bytes(syms: Seq<Symbol>) -> Seq<u8>
    decreases syms.len(),
{
    if syms.len() == 0 {
        Seq::<u8>::empty()
    } else {
        match syms[0] {
            Symbol::Literal(l) => lit_bytes(l) + prefix_bytes(syms.drop_first()),
            Symbol::Bound(_, _) => Seq::<u8>::empty(),
        }
    }
}

/// The views of the names of the bound symbols, in order, literals skipped.
pub open spec fn field_name_views(syms: Seq<Symbol>) -> Seq<Seq<char>>
    decreases syms.len(),
{
    if syms.len() == 0 {
        Seq::<Seq<char>>::empty()
    } else {
        match syms[0] {
            Symbol::Literal(_) => field_name_views(syms.drop_first()),
            Symbol::Bound(name, _) => seq![name@] + field_name_views(syms.drop_first()),
        }
    }
}

/// A production holds at least one symbol.
pub open spec fn spec_production_wf(p: Production) -> bool {
    p.symbols@.len() >= 1
}

/// A non-terminal holds at least one production, each well-formed.
pub open spec fn spec_non_terminal_wf(nt: NonTerminal) -> bool {
    nt.productions@.len() >= 1 && forall|i: int|
        0 <= i < nt.productions@.len() ==> spec_production_wf(#[trigger] nt.productions@[i])
}

/// Every non-terminal of the grammar is well-formed.
pub open spec fn spec_grammar_wf(g: Grammar) -> bool {
    forall|i: int|
        0 <= i < g.non_terminals@.len() ==> spec_non_terminal_wf(#[trigger] g.non_terminals@[i])
}

/// One byte string is a prefix of another.
pub open spec fn is_prefix_of(a: Seq<u8>, b: Seq<u8>) -> bool {
    a.len() <= b.len() && a == b.take(a.len() as int)
}

/// The discriminator property of a non-terminal, in the strict form this
/// crate enforces: no production's literal prefix is a prefix of another's
/// (so in particular all prefixes are pairwise distinct byte sequences).
/// The looser alternative — allowing proper-prefix pairs and relying on
/// declaration order — is rejected here on purpose.
pub open spec fn spec_prefixes_disjoint(prods: Seq<Production>) -> bool {
    forall|i: int, j: int|
        0 <= i < prods.len() && 0 <= j < prods.len() && i != j ==> !is_prefix_of(
            prefix_bytes(#[trigger] prods[i].symbols@),
            prefix_bytes(#[trigger] prods[j].symbols@),
        )
}

impl Literal {
    /// The canonical wire bytes of this literal.
    pub fn as_u8s(&self) -> (r: Vec<u8>)
        ensures
            r@ == lit_bytes(*self),
    {
        let mut ret: Vec<u8> = Vec::new();
        match self {
            Literal::U8(i) => {
                ret.push(*i);
                assert(ret@ =~= lit_bytes(*self));
            },
            Literal::U32(i) => {
                uleb64_encode(*i as u64, &mut ret);
                assert(ret@ =~= lit_bytes(*self));
            },
            Literal::I32(i) => {
                sleb64_encode(*i as i64, &mut ret);
                assert(ret@ =~= lit_bytes(*self));
            },
            Literal::U64(i) => {
                uleb64_encode(*i, &mut ret);
                assert(ret@ =~= lit_bytes(*self));
            },
            Literal::I64(i) => {
                sleb64_encode(*i, &mut ret);
                assert(ret@ =~= lit_bytes(*self));
            },
        }
        ret
    }
}

impl Production {
    /// The names of this production's bound symbols, in order; literals
    /// contribute nothing.
    pub fn field_names(&self) -> (r: Vec<String>)
        ensures
            r.deep_view() == field_name_views(self.symbols@),
    {
        let mut r: Vec<String> = Vec::new();
        let mut i: usize = 0;
        while i < self.symbols.len()
            invariant
                i <= self.symbols@.len(),
                r.deep_view() == field_name_views(self.symbols@.take(i as int)),
            decreases self.symbols@.len() - i,
        {
            let ghost prev = r.deep_view();
            match &self.symbols[i] {
                Symbol::Literal(_) => {
                },
                Symbol::Bound(name, _) => {
                    r.push(name.clone());
                },
            }
            proof {
                lemma_field_name_views_take(self.symbols@, i as int);
                assert(r.deep_view() =~= field_name_views(self.symbols@.take(i + 1)));
            }
            i = i + 1;
        }
        proof {
            assert(self.symbols@.take(self.symbols@.len() as int) =~= self.symbols@);
        }
        r
    }
}

/// Extending the symbol prefix by one symbol extends the collected names by
/// that symbol's name, if it has one.
proof fn lemma_field_name_views_take(syms: Seq<Symbol>, i: int)
    requires
        0 <= i < syms.len(),
    ensures
        field_name_views(syms.take(i + 1)) == match syms[i] {
            Symbol::Literal(_) => field_name_views(syms.take(i)),
            Symbol::Bound(name, _) => field_name_views(syms.take(i)).push(name@),
        },
    decreases i,
{
    if i == 0 {
        assert(syms.take(1).drop_first() =~= Seq::<Symbol>::empty());
        assert(syms.take(0) =~= Seq::<Symbol>::empty());
        match syms[0] {
            Symbol::Literal(_) => {
            },
            Symbol::Bound(name, _) => {
                assert(field_name_views(syms.take(1)) =~= field_name_views(syms.take(0)).push(
                    name@,
                ));
            },
        }
    } else {
        lemma_field_name_views_take(syms.drop_first(), i - 1);
        assert(syms.take(i + 1).drop_first() =~= syms.drop_first().take(i));
        assert(syms.take(i).drop_first() =~= syms.drop_first().take(i - 1));
        assert(syms.take(i + 1)[0] == syms[0]);
        assert(syms.take(i)[0] == syms[0]);
        assert(syms.drop_first()[i - 1] == syms[i]);
        match syms[i] {
            Symbol::Literal(_) => {
            },
            Symbol::Bound(name, _) => {
                match syms[0] {
                    Symbol::Literal(_) => {
                    },
                    Symbol::Bound(n0, _) => {
                        assert(field_name_views(syms.take(i + 1)) =~= field_name_views(
                            syms.take(i),
                        ).push(name@));
                    },
                }
            },
        }
    }
}

impl Grammar {
    /// Appends the literal prefix bytes of `production` to `prefix`: the
    /// canonical bytes of its leading literal symbols, stopping at the
    /// first bound symbol.
    pub fn production_prefix(&self, production: &Production, prefix: &mut Vec<u8>)
        ensures
            final(prefix)@ == old(prefix)@ + prefix_bytes(production.symbols@),
    {
        let mut i: usize = 0;
        proof {
            assert(production.symbols@.skip(0) =~= production.symbols@);
        }
        while i < production.symbols.len()
            invariant
                i <= production.symbols@.len(),
                prefix@ + prefix_bytes(production.symbols@.skip(i as int)) == old(prefix)@
                    + prefix_bytes(production.symbols@),
                forall|j: int|
                    0 <= j < i ==> production.symbols@[j] is Literal,
            decreases production.symbols@.len() - i,
        {
            match &production.symbols[i] {
                Symbol::Literal(lit) => {
                    let mut bytes = lit.as_u8s();
                    prefix.append(&mut bytes);
                    proof {
                        assert(production.symbols@.skip(i as int).drop_first()
                            =~= production.symbols@.skip(i + 1));
                        assert(production.symbols@.skip(i as int)[0]
                            == production.symbols@[i as int]);
                        assert(prefix@ + prefix_bytes(production.symbols@.skip(i + 1))
                            =~= old(prefix)@ + prefix_bytes(production.symbols@));
                    }
                },
                Symbol::Bound(_, _) => {
                    proof {
                        assert(production.symbols@.skip(i as int)[0]
                            == production.symbols@[i as int]);
                        assert(prefix_bytes(production.symbols@.skip(i as int))
                            =~= Seq::<u8>::empty());
                        assert(prefix@ =~= old(prefix)@ + prefix_bytes(production.symbols@));
                    }
                    return ;
                },
            }
            i = i + 1;
        }
        proof {
            assert(production.symbols@.skip(production.symbols@.len() as int)
                =~= Seq::<Symbol>::empty());
            assert(prefix@ =~= old(prefix)@ + prefix_bytes(production.symbols@));
        }
    }
}

/// One byte vector is a prefix of another.
fn bytes_prefix(a: &Vec<u8>, b: &Vec<u8>) -> (r: bool)
    ensures
        r == is_prefix_of(a@, b@),
{
    if a.len() > b.len() {
        return false;
    }
    let mut i: usize = 0;
    while i < a.len()
        invariant
            i <= a@.len(),
            a@.len() <= b@.len(),
            forall|j: int| 0 <= j < i ==> a@[j] == b@.take(a@.len() as int)[j],
        decreases a@.len() - i,
    {
        if a[i] != b[i] {
            proof {
                assert(b@.take(a@.len() as int)[i as int] == b@[i as int]);
            }
            return false;
        }
        i = i + 1;
    }
    proof {
        assert(a@ =~= b@.take(a@.len() as int));
    }
    true
}

impl NonTerminal {
    /// Checks the discriminator property for this non-terminal: no
    /// production's literal prefix may be a prefix of another's.  For a
    /// union this is what lets the decoder dispatch on the leading bytes
    /// without ever backtracking.
    pub fn prefixes_disjoint(&self, grammar: &Grammar) -> (r: bool)
        ensures
            r == spec_prefixes_disjoint(self.productions@),
    {
        let n = self.productions.len();
        let mut i: usize = 0;
        while i < n
            invariant
                i <= n,
                n == self.productions@.len(),
                forall|x: int, y: int|
                    0 <= x < i && 0 <= y < n && x != y ==> !is_prefix_of(
                        prefix_bytes(#[trigger] self.productions@[x].symbols@),
                        prefix_bytes(#[trigger] self.productions@[y].symbols@),
                    ),
            decreases n - i,
        {
            let mut pi: Vec<u8> = Vec::new();
            grammar.production_prefix(&self.productions[i], &mut pi);
            let mut j: usize = 0;
            while j < n
                invariant
                    j <= n,
                    i < n,
                    n == self.productions@.len(),
                    pi@ == prefix_bytes(self.productions@[i as int].symbols@),
                    forall|y: int|
                        0 <= y < j && y != i ==> !is_prefix_of(
                            prefix_bytes(self.productions@[i as int].symbols@),
                            prefix_bytes(#[trigger] self.productions@[y].symbols@),
                        ),
                decreases n - j,
            {
                if j != i {
                    let mut pj: Vec<u8> = Vec::new();
                    grammar.production_prefix(&self.productions[j], &mut pj);
                    if bytes_prefix(&pi, &pj) {
                        return false;
                    }
                }
                j = j + 1;
            }
            i = i + 1;
        }
        true
    }
}

impl Grammar {
    /// Checks the discriminator property for every non-terminal.
    pub fn prefixes_disjoint(&self) -> (r: bool)
        ensures
            r == forall|i: int|
                0 <= i < self.non_terminals@.len() ==> spec_prefixes_disjoint(
                    (#[trigger] self.non_terminals@[i]).productions@,
                ),
    {
        let mut i: usize = 0;
        while i < self.non_terminals.len()
            invariant
                i <= self.non_terminals@.len(),
                forall|x: int|
                    0 <= x < i ==> spec_prefixes_disjoint(
                        (#[trigger] self.non_terminals@[x]).productions@,
                    ),
            decreases self.non_terminals@.len() - i,
        {
            if !self.non_terminals[i].prefixes_disjoint(self) {
                return false;
            }
            i = i + 1;
        }
        true
    }
}


/// A parse failure, with the byte position it was noticed at.
#[derive(Debug, PartialEq)]
pub struct ParseError {
    pub pos: usize,
}

/// Deep view of [`BoundSymbol`]: the same shape with abstract names.
pub enum SpecBoundSymbol {
    Vec(Seq<char>),
    Repeated(Seq<char>),
    Sized(Box<SpecBoundSymbol>),
    Builtin(BuiltinSymbol),
    Type(Seq<char>),
}

/// Deep view of [`Symbol`].
pub enum SpecSymbol {
    Literal(Literal),
    Bound(Seq<char>, SpecBoundSymbol),
}

/// Deep view of [`Production`].
pub struct SpecProduction {
    pub symbols: Seq<SpecSymbol>,
    pub rhs: Seq<char>,
}

/// Deep view of [`NonTerminal`].
pub struct SpecNonTerminal {
    pub name: Seq<char>,
    pub productions: Seq<SpecProduction>,
}

/// Deep view of [`Grammar`].
pub struct SpecGrammar {
    pub non_terminals: Seq<SpecNonTerminal>,
}

/// Deep view of a bound symbol.
pub open spec fn bound_symbol_view(b: BoundSymbol) -> SpecBoundSymbol
    decreases b,
{
    match b {
        BoundSymbol::Vec(t) => SpecBoundSymbol::Vec(t@),
        BoundSymbol::Repeated(t) => SpecBoundSymbol::Repeated(t@),
        BoundSymbol::Sized(inner) => SpecBoundSymbol::Sized(Box::new(bound_symbol_view(*inner))),
        BoundSymbol::Builtin(bi) => SpecBoundSymbol::Builtin(bi),
        BoundSymbol::Type(t) => SpecBoundSymbol::Type(t@),
    }
}

/// Deep view of a symbol.
pub open spec fn symbol_view(s: Symbol) -> SpecSymbol {
    match s {
        Symbol::Literal(l) => SpecSymbol::Literal(l),
        Symbol::Bound(n, b) => SpecSymbol::Bound(n@, bound_symbol_view(b)),
    }
}

/// Deep view of a symbol sequence.
pub open spec fn symbol_seq_view(s: Seq<Symbol>) -> Seq<SpecSymbol> {
    Seq::new(s.len(), |i: int| symbol_view(s[i]))
}

/// Deep view of a production.
pub open spec fn production_view(p: Production) -> SpecProduction {
    SpecProduction { symbols: symbol_seq_view(p.symbols@), rhs: p.rhs@ }
}

/// Deep view of a non-terminal.
pub open spec fn non_terminal_view(nt: NonTerminal) -> SpecNonTerminal {
    SpecNonTerminal {
        name: nt.name@,
        productions: Seq::new(nt.productions@.len(), |i: int| production_view(nt.productions@[i])),
    }
}

/// Deep view of a grammar.
pub open spec fn grammar_view(g: Grammar) -> SpecGrammar {
    SpecGrammar {
        non_terminals: Seq::new(
            g.non_terminals@.len(),
            |i: int| non_terminal_view(g.non_terminals@[i]),
        ),
    }
}

/// The characters of an ASCII byte sequence.
pub open spec fn ascii_chars(bytes: Seq<u8>) -> Seq<char> {
    Seq::new(bytes.len(), |i: int| bytes[i] as char)
}

/// An all-ASCII byte sequence is valid UTF-8 and decodes to its own
/// characters.
proof fn lemma_ascii_decode(bytes: Seq<u8>)
    requires
        forall|i: int| 0 <= i < bytes.len() ==> #[trigger] bytes[i] < 0x80,
    ensures
        vstd::utf8::valid_utf8(bytes),
        vstd::utf8::decode_utf8(bytes) == ascii_chars(bytes),
{
    let chars = ascii_chars(bytes);
    assert(vstd::utf8::is_ascii_chars(chars));
    vstd::utf8::is_ascii_chars_encode_utf8(chars);
    assert(vstd::utf8::encode_utf8(chars) =~= bytes);
    vstd::utf8::encode_utf8_valid_utf8(chars);
    vstd::utf8::encode_utf8_decode_utf8(chars);
}

/// Whitespace bytes of the description language.
pub open spec fn spec_is_ws(b: u8) -> bool {
    b == 32 || b == 9 || b == 13 || b == 10
}

/// Bytes that may start an identifier.
pub open spec fn spec_ident_start(b: u8) -> bool {
    b == 95 || (65 <= b && b <= 90) || (97 <= b && b <= 122)
}

/// Bytes that may continue an identifier.
pub open spec fn spec_ident_char(b: u8) -> bool {
    spec_ident_start(b) || (48 <= b && b <= 57)
}

/// The position after the whitespace and line comments at `pos`;
/// `in_comment` carries the lexer state inside a `//` comment.
pub open spec fn spec_trivia(input: Seq<u8>, pos: int, in_comment: bool) -> int
    decreases input.len() - pos,
{
    if pos < 0 || pos >= input.len() {
        pos
    } else if in_comment {
        if input[pos] == 10 {
            spec_trivia(input, pos + 1, false)
        } else {
            spec_trivia(input, pos + 1, true)
        }
    } else if spec_is_ws(input[pos]) {
        spec_trivia(input, pos + 1, false)
    } else if input[pos] == 47 && pos + 1 < input.len() && input[pos + 1] == 47 {
        spec_trivia(input, pos + 2, true)
    } else {
        pos
    }
}

/// Trivia skipping never moves backwards and stays in bounds.
proof fn lemma_trivia_bounds(input: Seq<u8>, pos: int, in_comment: bool)
    requires
        0 <= pos <= input.len(),
    ensures
        pos <= spec_trivia(input, pos, in_comment) <= input.len(),
    decreases input.len() - pos,
{
    if 0 <= pos < input.len() {
        if in_comment {
            lemma_trivia_bounds(input, pos + 1, input[pos] != 10);
        } else if spec_is_ws(input[pos]) {
            lemma_trivia_bounds(input, pos + 1, false);
        } else if input[pos] == 47 && pos + 1 < input.len() && input[pos + 1] == 47 {
            lemma_trivia_bounds(input, pos + 2, true);
        }
    }
}

/// The end of the identifier-character run starting at `pos`.
pub open spec fn spec_ident_end(input: Seq<u8>, pos: int) -> int
    decreases input.len() - pos,
{
    if 0 <= pos < input.len() && spec_ident_char(input[pos]) {
        spec_ident_end(input, pos + 1)
    } else {
        pos
    }
}

/// The identifier run stays in bounds and covers identifier bytes only.
proof fn lemma_ident_end_props(input: Seq<u8>, pos: int)
    requires
        0 <= pos <= input.len(),
    ensures
        pos <= spec_ident_end(input, pos) <= input.len(),
        forall|j: int|
            pos <= j < spec_ident_end(input, pos) ==> spec_ident_char(#[trigger] input[j]),
    decreases input.len() - pos,
{
    if 0 <= pos < input.len() && spec_ident_char(input[pos]) {
        lemma_ident_end_props(input, pos + 1);
    }
}

/// The identifier (as bytes) at `pos`, after trivia, if one starts there.
pub open spec fn spec_ident(input: Seq<u8>, pos: int) -> Option<(Seq<u8>, int)> {
    let p = spec_trivia(input, pos, false);
    if p < input.len() && spec_ident_start(input[p]) {
        let e = spec_ident_end(input, p);
        Some((input.subrange(p, e), e))
    } else {
        None
    }
}

/// The position after one expected byte at `pos`, after trivia.
pub open spec fn spec_expect(input: Seq<u8>, pos: int, b: u8) -> Option<int> {
    let p = spec_trivia(input, pos, false);
    if p < input.len() && input[p] == b {
        Some(p + 1)
    } else {
        None
    }
}

/// The value of a hexadecimal digit byte.
pub open spec fn spec_hex_val(b: u8) -> Option<u64> {
    if 48 <= b && b <= 57 {
        Some((b - 48) as u64)
    } else if 97 <= b && b <= 102 {
        Some((b - 87) as u64)
    } else if 65 <= b && b <= 70 {
        Some((b - 55) as u64)
    } else {
        None
    }
}

/// Accumulates hexadecimal digits from `pos`; overflow of 64 bits fails.
pub open spec fn spec_hex_run(input: Seq<u8>, pos: int, value: u64) -> Option<(u64, int)>
    decreases input.len() - pos,
{
    if 0 <= pos < input.len() {
        match spec_hex_val(input[pos]) {
            Some(d) => if value > 0xFFF_FFFF_FFFF_FFFF {
                None
            } else {
                spec_hex_run(input, pos + 1, (16 * value + d) as u64)
            },
            None => Some((value, pos)),
        }
    } else {
        Some((value, pos))
    }
}

/// Accumulates decimal digits from `pos`; overflow of 64 bits fails.
pub open spec fn spec_dec_run(input: Seq<u8>, pos: int, value: u64) -> Option<(u64, int)>
    decreases input.len() - pos,
{
    if 0 <= pos < input.len() && 48 <= input[pos] && input[pos] <= 57 {
        let d = (input[pos] - 48) as u64;
        if value > 0x1999_9999_9999_9999 || (value == 0x1999_9999_9999_9999 && d > 5) {
            None
        } else {
            spec_dec_run(input, pos + 1, (10 * value + d) as u64)
        }
    } else {
        Some((value, pos))
    }
}

/// The integer literal at `pos`, after trivia: decimal or `0x` hexadecimal,
/// with any trailing alphanumeric suffix read over and ignored.
pub open spec fn spec_int(input: Seq<u8>, pos: int) -> Option<(u64, int)> {
    let p = spec_trivia(input, pos, false);
    if p < input.len() && 48 <= input[p] && input[p] <= 57 {
        if input[p] == 48 && p + 1 < input.len() && (input[p + 1] == 120 || input[p + 1] == 88) {
            match spec_hex_run(input, p + 2, 0) {
                Some((v, e)) => if e == p + 2 {
                    None
                } else {
                    Some((v, spec_ident_end(input, e)))
                },
                None => None,
            }
        } else {
            match spec_dec_run(input, p, 0) {
                Some((v, e)) => Some((v, spec_ident_end(input, e))),
                None => None,
            }
        }
    } else {
        None
    }
}

/// The bound-symbol shape at `pos`: the keyword shapes, the builtins, or a
/// non-terminal reference.
pub open spec fn spec_bound_symbol(input: Seq<u8>, pos: int) -> Option<(SpecBoundSymbol, int)>
    decreases input.len() - pos,
{
    match spec_ident(input, pos) {
        None => None,
        Some((id, p1)) => if id == seq![118u8, 101u8, 99u8] {
            // vec
            match spec_expect(input, p1, 40) {
                None => None,
                Some(p2) => match spec_ident(input, p2) {
                    None => None,
                    Some((ty, p3)) => match spec_expect(input, p3, 41) {
                        None => None,
                        Some(p4) => Some((SpecBoundSymbol::Vec(ascii_chars(ty)), p4)),
                    },
                },
            }
        } else if id == seq![114u8, 101u8, 112u8, 101u8, 97u8, 116u8, 101u8, 100u8] {
            // repeated
            match spec_expect(input, p1, 40) {
                None => None,
                Some(p2) => match spec_ident(input, p2) {
                    None => None,
                    Some((ty, p3)) => match spec_expect(input, p3, 41) {
                        None => None,
                        Some(p4) => Some((SpecBoundSymbol::Repeated(ascii_chars(ty)), p4)),
                    },
                },
            }
        } else if id == seq![115u8, 105u8, 122u8, 101u8, 100u8] {
            // sized
            match spec_expect(input, p1, 40) {
                None => None,
                Some(p2) => if pos < p2 <= input.len() {
                    match spec_bound_symbol(input, p2) {
                        None => None,
                        Some((inner, p3)) => match spec_expect(input, p3, 41) {
                            None => None,
                            Some(p4) => Some((SpecBoundSymbol::Sized(Box::new(inner)), p4)),
                        },
                    }
                } else {
                    None
                },
            }
        } else if id == seq![110u8, 97u8, 109u8, 101u8] {
            // name
            Some((SpecBoundSymbol::Builtin(BuiltinSymbol::Name), p1))
        } else if id == seq![117u8, 51u8, 50u8] {
            // u32
            Some((SpecBoundSymbol::Builtin(BuiltinSymbol::U32), p1))
        } else {
            Some((SpecBoundSymbol::Type(ascii_chars(id)), p1))
        },
    }
}

/// The symbol at `pos`: a literal or a named bound symbol.
pub open spec fn spec_symbol(input: Seq<u8>, pos: int) -> Option<(SpecSymbol, int)> {
    let p0 = spec_trivia(input, pos, false);
    if p0 < input.len() && 48 <= input[p0] && input[p0] <= 57 {
        match spec_int(input, p0) {
            None => None,
            Some((v, p1)) => {
                let p2 = spec_trivia(input, p1, false);
                if p2 < input.len() && input[p2] == 58 {
                    match spec_ident(input, p2 + 1) {
                        None => None,
                        Some((ty, p3)) => if ty == seq![117u8, 51u8, 50u8] {
                            if v <= 0xFFFF_FFFF {
                                Some((SpecSymbol::Literal(Literal::U32(v as u32)), p3))
                            } else {
                                None
                            }
                        } else if ty == seq![105u8, 51u8, 50u8] {
                            if v <= 0x7FFF_FFFF {
                                Some((SpecSymbol::Literal(Literal::I32(v as i32)), p3))
                            } else {
                                None
                            }
                        } else if ty == seq![117u8, 54u8, 52u8] {
                            Some((SpecSymbol::Literal(Literal::U64(v)), p3))
                        } else if ty == seq![105u8, 54u8, 52u8] {
                            if v <= 0x7FFF_FFFF_FFFF_FFFF {
                                Some((SpecSymbol::Literal(Literal::I64(v as i64)), p3))
                            } else {
                                None
                            }
                        } else {
                            None
                        },
                    }
                } else if v <= 255 {
                    Some((SpecSymbol::Literal(Literal::U8(v as u8)), p1))
                } else {
                    None
                }
            },
        }
    } else {
        match spec_ident(input, p0) {
            None => None,
            Some((nm, p1)) => match spec_expect(input, p1, 58) {
                None => None,
                Some(p2) => match spec_bound_symbol(input, p2) {
                    None => None,
                    Some((bs, p3)) => Some((SpecSymbol::Bound(ascii_chars(nm), bs), p3)),
                },
            },
        }
    }
}

/// The symbol list at `pos`, closed by `=`; the position returned is just
/// past the `=`.
pub open spec fn spec_symbols(input: Seq<u8>, pos: int) -> Option<(Seq<SpecSymbol>, int)>
    decreases input.len() - pos,
{
    let q = spec_trivia(input, pos, false);
    if q >= input.len() {
        None
    } else if input[q] == 61 {
        Some((Seq::<SpecSymbol>::empty(), q + 1))
    } else {
        match spec_symbol(input, q) {
            None => None,
            Some((s, p2)) => if pos < p2 <= input.len() {
                match spec_symbols(input, p2) {
                    None => None,
                    Some((rest, e)) => Some((seq![s] + rest, e)),
                }
            } else {
                None
            },
        }
    }
}

/// The production at `pos`: at least one symbol, `=`, the tag, a comma.
pub open spec fn spec_production(input: Seq<u8>, pos: int) -> Option<(SpecProduction, int)> {
    match spec_symbols(input, pos) {
        None => None,
        Some((syms, p)) => if syms.len() == 0 {
            None
        } else {
            match spec_ident(input, p) {
                None => None,
                Some((rhs, p1)) => match spec_expect(input, p1, 44) {
                    None => None,
                    Some(p2) => Some(
                        (SpecProduction { symbols: syms, rhs: ascii_chars(rhs) }, p2),
                    ),
                },
            }
        },
    }
}

/// The production list at `pos`, closed by `}`; the position returned is
/// just past the `}`.
pub open spec fn spec_productions(input: Seq<u8>, pos: int) -> Option<(Seq<SpecProduction>, int)>
    decreases input.len() - pos,
{
    let q = spec_trivia(input, pos, false);
    if q >= input.len() {
        None
    } else if input[q] == 125 {
        Some((Seq::<SpecProduction>::empty(), q + 1))
    } else {
        match spec_production(input, q) {
            None => None,
            Some((pr, p2)) => if pos < p2 <= input.len() {
                match spec_productions(input, p2) {
                    None => None,
                    Some((rest, e)) => Some((seq![pr] + rest, e)),
                }
            } else {
                None
            },
        }
    }
}

/// The non-terminal at `pos`: a name and a braced, non-empty production
/// list.
pub open spec fn spec_non_terminal(input: Seq<u8>, pos: int) -> Option<(SpecNonTerminal, int)> {
    match spec_ident(input, pos) {
        None => None,
        Some((nm, p1)) => match spec_expect(input, p1, 123) {
            None => None,
            Some(p2) => match spec_productions(input, p2) {
                None => None,
                Some((prods, p3)) => if prods.len() == 0 {
                    None
                } else {
                    Some((SpecNonTerminal { name: ascii_chars(nm), productions: prods }, p3))
                },
            },
        },
    }
}

/// The non-terminal list from `pos` to the end of the input.
pub open spec fn spec_non_terminals(input: Seq<u8>, pos: int) -> Option<(Seq<SpecNonTerminal>, int)>
    decreases input.len() - pos,
{
    let q = spec_trivia(input, pos, false);
    if q >= input.len() {
        Some((Seq::<SpecNonTerminal>::empty(), q))
    } else {
        match spec_non_terminal(input, q) {
            None => None,
            Some((nt, p2)) => if pos < p2 <= input.len() {
                match spec_non_terminals(input, p2) {
                    None => None,
                    Some((rest, e)) => Some((seq![nt] + rest, e)),
                }
            } else {
                None
            },
        }
    }
}

/// The whole grammar a text describes, if it parses.
pub open spec fn spec_grammar(input: Seq<u8>) -> Option<SpecGrammar> {
    match spec_non_terminals(input, 0) {
        None => None,
        Some((nts, _)) => Some(SpecGrammar { non_terminals: nts }),
    }
}

/// True for bytes that may start an identifier.
fn is_ident_start(b: u8) -> (r: bool)
    ensures
        r == spec_ident_start(b),
{
    b == 95 || (65 <= b && b <= 90) || (97 <= b && b <= 122)
}

/// True for bytes that may continue an identifier.
fn is_ident_char(b: u8) -> (r: bool)
    ensures
        r == spec_ident_char(b),
{
    is_ident_start(b) || (48 <= b && b <= 57)
}

/// Skips whitespace and line comments.
fn skip_trivia(input: &[u8], pos: usize) -> (r: usize)
    requires
        pos <= input@.len(),
    ensures
        pos <= r <= input@.len(),
        r == spec_trivia(input@, pos as int, false),
{
    let mut p = pos;
    while p < input.len()
        invariant
            pos <= p <= input@.len(),
            spec_trivia(input@, pos as int, false) == spec_trivia(input@, p as int, false),
        decreases input@.len() - p,
    {
        let b = input[p];
        if b == 32 || b == 9 || b == 13 || b == 10 {
            p = p + 1;
        } else if b == 47 && p + 1 < input.len() && input[p + 1] == 47 {
            let ghost entry = p as int;
            p = p + 2;
            while p < input.len() && input[p] != 10
                invariant
                    entry + 2 <= p <= input@.len(),
                    spec_trivia(input@, pos as int, false) == spec_trivia(input@, p as int, true),
                decreases input@.len() - p,
            {
                p = p + 1;
            }
            proof {
                if p < input@.len() {
                    assert(spec_trivia(input@, p as int, true) == spec_trivia(
                        input@,
                        p + 1,
                        false,
                    ));
                    assert(spec_trivia(input@, p as int, false) == spec_trivia(
                        input@,
                        p + 1,
                        false,
                    ));
                }
            }
        } else {
            return p;
        }
    }
    p
}

/// Reads an identifier as raw bytes.
fn parse_ident_bytes(input: &[u8], pos: usize) -> (r: Result<(Vec<u8>, usize), ParseError>)
    requires
        pos <= input@.len(),
    ensures
        r matches Ok(p) ==> pos < p.1 <= input@.len() && spec_ident(input@, pos as int) == Some(
            (p.0@, p.1 as int),
        ),
        r is Err ==> spec_ident(input@, pos as int) is None,
{
    let p0 = skip_trivia(input, pos);
    if p0 >= input.len() || !is_ident_start(input[p0]) {
        return Err(ParseError { pos: p0 });
    }
    proof {
        lemma_ident_end_props(input@, p0 as int);
    }
    let mut bytes: Vec<u8> = Vec::new();
    let mut p = p0;
    while p < input.len() && is_ident_char(input[p])
        invariant
            p0 <= p <= input@.len(),
            spec_ident_end(input@, p0 as int) == spec_ident_end(input@, p as int),
            bytes@ == input@.subrange(p0 as int, p as int),
        decreases input@.len() - p,
    {
        bytes.push(input[p]);
        proof {
            assert(bytes@ =~= input@.subrange(p0 as int, p + 1));
        }
        p = p + 1;
    }
    proof {
        assert(spec_ident_end(input@, p as int) == p as int);
    }
    Ok((bytes, p))
}

/// Compares an identifier against a keyword.
fn kw_eq(a: &Vec<u8>, b: &[u8]) -> (r: bool)
    ensures
        r == (a@ == b@),
{
    if a.len() != b.len() {
        return false;
    }
    let mut i: usize = 0;
    while i < a.len()
        invariant
            i <= a@.len(),
            a@.len() == b@.len(),
            forall|j: int| 0 <= j < i ==> a@[j] == b@[j],
        decreases a@.len() - i,
    {
        if a[i] != b[i] {
            return false;
        }
        i = i + 1;
    }
    proof {
        assert(a@ =~= b@);
    }
    true
}

/// Turns all-ASCII identifier bytes into a string of those characters.
fn ident_string(bytes: Vec<u8>) -> (r: String)
    requires
        forall|i: int| 0 <= i < bytes@.len() ==> #[trigger] bytes@[i] < 0x80,
    ensures
        r@ == ascii_chars(bytes@),
{
    proof {
        lemma_ascii_decode(bytes@);
    }
    match crate::codec::bytes_to_string(bytes) {
        Some(s) => s,
        None => {
            proof {
                assert(false);
            }
            String::new()
        },
    }
}

/// Identifier bytes are ASCII.
proof fn lemma_ident_ascii(input: Seq<u8>, pos: int)
    requires
        0 <= pos <= input.len(),
    ensures
        spec_ident(input, pos) matches Some((id, e)) ==> forall|i: int|
            0 <= i < id.len() ==> #[trigger] id[i] < 0x80,
{
    let p = spec_trivia(input, pos, false);
    lemma_trivia_bounds(input, pos, false);
    if p < input.len() && spec_ident_start(input[p]) {
        lemma_ident_end_props(input, p);
    }
}

/// Reads a decimal or `0x` hexadecimal integer; a trailing alphanumeric
/// suffix is read over and ignored, as the original token form allows.
fn parse_int(input: &[u8], pos: usize) -> (r: Result<(u64, usize), ParseError>)
    requires
        pos <= input@.len(),
    ensures
        r matches Ok(p) ==> pos < p.1 <= input@.len() && spec_int(input@, pos as int) == Some(
            (p.0, p.1 as int),
        ),
        r is Err ==> spec_int(input@, pos as int) is None,
{
    let p0 = skip_trivia(input, pos);
    if p0 >= input.len() || !(48 <= input[p0] && input[p0] <= 57) {
        return Err(ParseError { pos: p0 });
    }
    let mut value: u64 = 0;
    let mut p = p0;
    if input[p0] == 48 && p0 + 1 < input.len() && (input[p0 + 1] == 120 || input[p0 + 1] == 88) {
        p = p0 + 2;
        let mut saw_digit = false;
        loop
            invariant
                pos <= p0,
                p0 + 2 <= p <= input@.len(),
                spec_trivia(input@, pos as int, false) == p0 as int,
                48 <= input@[p0 as int] <= 57,
                input@[p0 as int] == 48,
                p0 + 1 < input@.len(),
                input@[p0 + 1] == 120 || input@[p0 + 1] == 88,
                spec_hex_run(input@, p0 + 2, 0) == spec_hex_run(input@, p as int, value),
                saw_digit == (p > p0 + 2),
            ensures
                p0 + 2 <= p <= input@.len(),
                saw_digit == (p > p0 + 2),
                spec_hex_run(input@, p0 + 2, 0) == Some((value, p as int)),
            decreases input@.len() - p,
        {
            if p >= input.len() {
                break ;
            }
            let b = input[p];
            let mut d: u64 = 0;
            let mut is_digit = false;
            if 48 <= b && b <= 57 {
                d = (b - 48) as u64;
                is_digit = true;
            } else if 97 <= b && b <= 102 {
                d = (b - 87) as u64;
                is_digit = true;
            } else if 65 <= b && b <= 70 {
                d = (b - 55) as u64;
                is_digit = true;
            }
            if !is_digit {
                proof {
                    assert(spec_hex_val(input@[p as int]) is None);
                }
                break ;
            }
            if value > 0xFFF_FFFF_FFFF_FFFF {
                proof {
                    assert(spec_hex_val(input@[p as int]) == Some(d));
                    assert(spec_hex_run(input@, p as int, value) is None);
                    assert(spec_hex_run(input@, p0 + 2, 0) is None);
                    assert(spec_trivia(input@, pos as int, false) == p0 as int);
                    assert(spec_int(input@, pos as int) is None);
                }
                return Err(ParseError { pos: p });
            }
            value = value * 16 + d;
            saw_digit = true;
            p = p + 1;
        }
        if !saw_digit {
            return Err(ParseError { pos: p });
        }
    } else {
        while p < input.len() && 48 <= input[p] && input[p] <= 57
            invariant
                pos <= p0,
                p0 <= p <= input@.len(),
                p0 < input@.len(),
                spec_trivia(input@, pos as int, false) == p0 as int,
                48 <= input@[p0 as int] <= 57,
                !(input@[p0 as int] == 48 && p0 + 1 < input@.len() && (input@[p0 + 1] == 120
                    || input@[p0 + 1] == 88)),
                spec_dec_run(input@, p0 as int, 0) == spec_dec_run(input@, p as int, value),
            decreases input@.len() - p,
        {
            let d = (input[p] - 48) as u64;
            if value > 0x1999_9999_9999_9999 || (value == 0x1999_9999_9999_9999 && d > 5) {
                proof {
                    assert(spec_dec_run(input@, p as int, value) is None);
                    assert(spec_dec_run(input@, p0 as int, 0) is None);
                    assert(spec_trivia(input@, pos as int, false) == p0 as int);
                    assert(spec_int(input@, pos as int) is None);
                }
                return Err(ParseError { pos: p });
            }
            value = value * 10 + d;
            p = p + 1;
        }
        proof {
            assert(spec_dec_run(input@, p as int, value) == Some((value, p as int)));
        }
    }
    // read over a type suffix such as the `u32` of `0u32`
    let ghost digits_end = p as int;
    while p < input.len() && is_ident_char(input[p])
        invariant
            digits_end <= p <= input@.len(),
            spec_ident_end(input@, digits_end) == spec_ident_end(input@, p as int),
        decreases input@.len() - p,
    {
        p = p + 1;
    }
    proof {
        assert(spec_ident_end(input@, p as int) == p as int);
    }
    Ok((value, p))
}

/// Skips trivia and consumes one expected byte.
fn expect_byte(input: &[u8], pos: usize, b: u8) -> (r: Result<usize, ParseError>)
    requires
        pos <= input@.len(),
    ensures
        r matches Ok(p) ==> pos < p <= input@.len() && spec_expect(input@, pos as int, b) == Some(
            p as int,
        ),
        r is Err ==> spec_expect(input@, pos as int, b) is None,
{
    let p = skip_trivia(input, pos);
    if p < input.len() && input[p] == b {
        Ok(p + 1)
    } else {
        Err(ParseError { pos: p })
    }
}

impl BoundSymbol {
    /// Parses a bound-symbol shape: `vec(T)`, `repeated(T)`, `sized(S)`,
    /// the builtins `name` and `u32`, or a non-terminal reference; exactly
    /// the shape [`spec_bound_symbol`] reads at this position.
    pub fn parse(input: &[u8], pos: usize) -> (r: Result<(BoundSymbol, usize), ParseError>)
        requires
            pos <= input@.len(),
        ensures
            r matches Ok(p) ==> pos < p.1 <= input@.len() && spec_bound_symbol(
                input@,
                pos as int,
            ) == Some((bound_symbol_view(p.0), p.1 as int)),
            r is Err ==> spec_bound_symbol(input@, pos as int) is None,
        decreases input@.len() - pos,
    {
        proof {
            lemma_ident_ascii(input@, pos as int);
        }
        let (ident, p1) = parse_ident_bytes(input, pos)?;
        if kw_eq(&ident, &[118, 101, 99]) {
            // vec
            let p2 = expect_byte(input, p1, 40)?;
            proof {
                lemma_ident_ascii(input@, p2 as int);
            }
            let (tyb, p3) = parse_ident_bytes(input, p2)?;
            let p4 = expect_byte(input, p3, 41)?;
            let ty = ident_string(tyb);
            Ok((BoundSymbol::Vec(ty), p4))
        } else if kw_eq(&ident, &[114, 101, 112, 101, 97, 116, 101, 100]) {
            // repeated
            let p2 = expect_byte(input, p1, 40)?;
            proof {
                lemma_ident_ascii(input@, p2 as int);
            }
            let (tyb, p3) = parse_ident_bytes(input, p2)?;
            let p4 = expect_byte(input, p3, 41)?;
            let ty = ident_string(tyb);
            Ok((BoundSymbol::Repeated(ty), p4))
        } else if kw_eq(&ident, &[115, 105, 122, 101, 100]) {
            // sized
            let p2 = expect_byte(input, p1, 40)?;
            let (inner, p3) = BoundSymbol::parse(input, p2)?;
            let p4 = expect_byte(input, p3, 41)?;
            Ok((BoundSymbol::Sized(Box::new(inner)), p4))
        } else if kw_eq(&ident, &[110, 97, 109, 101]) {
            // name
            Ok((BoundSymbol::Builtin(BuiltinSymbol::Name), p1))
        } else if kw_eq(&ident, &[117, 51, 50]) {
            // u32
            Ok((BoundSymbol::Builtin(BuiltinSymbol::U32), p1))
        } else {
            let ty = ident_string(ident);
            Ok((BoundSymbol::Type(ty), p1))
        }
    }
}

impl Symbol {
    /// Parses one symbol — an integer literal (`0xAB`, `12:u32`) or a bound
    /// symbol (`a:shape`) — exactly as [`spec_symbol`] reads it.
    pub fn parse(input: &[u8], pos: usize) -> (r: Result<(Symbol, usize), ParseError>)
        requires
            pos <= input@.len(),
        ensures
            r matches Ok(p) ==> pos < p.1 <= input@.len() && spec_symbol(input@, pos as int)
                == Some((symbol_view(p.0), p.1 as int)),
            r is Err ==> spec_symbol(input@, pos as int) is None,
    {
        let p0 = skip_trivia(input, pos);
        if p0 < input.len() && 48 <= input[p0] && input[p0] <= 57 {
            let (v, p1) = parse_int(input, p0)?;
            let p2 = skip_trivia(input, p1);
            if p2 < input.len() && input[p2] == 58 {
                // typed literal: `N:u32` and friends
                proof {
                    lemma_ident_ascii(input@, p2 + 1);
                }
                let (tyb, p3) = parse_ident_bytes(input, p2 + 1)?;
                if kw_eq(&tyb, &[117, 51, 50]) {
                    if v <= 0xFFFF_FFFF {
                        Ok((Symbol::Literal(Literal::U32(v as u32)), p3))
                    } else {
                        Err(ParseError { pos: p3 })
                    }
                } else if kw_eq(&tyb, &[105, 51, 50]) {
                    if v <= 0x7FFF_FFFF {
                        Ok((Symbol::Literal(Literal::I32(v as i32)), p3))
                    } else {
                        Err(ParseError { pos: p3 })
                    }
                } else if kw_eq(&tyb, &[117, 54, 52]) {
                    Ok((Symbol::Literal(Literal::U64(v)), p3))
                } else if kw_eq(&tyb, &[105, 54, 52]) {
                    if v <= 0x7FFF_FFFF_FFFF_FFFF {
                        Ok((Symbol::Literal(Literal::I64(v as i64)), p3))
                    } else {
                        Err(ParseError { pos: p3 })
                    }
                } else {
                    Err(ParseError { pos: p3 })
                }
            } else if v <= 255 {
                Ok((Symbol::Literal(Literal::U8(v as u8)), p1))
            } else {
                Err(ParseError { pos: p1 })
            }
        } else {
            proof {
                lemma_ident_ascii(input@, p0 as int);
            }
            let (nameb, p1) = parse_ident_bytes(input, p0)?;
            let p2 = expect_byte(input, p1, 58)?;
            let (shape, p3) = BoundSymbol::parse(input, p2)?;
            let name = ident_string(nameb);
            Ok((Symbol::Bound(name, shape), p3))
        }
    }
}

impl Production {
    /// Parses one production — symbols up to `=`, then the tag and a comma
    /// — exactly as [`spec_production`] reads it.
    pub fn parse(input: &[u8], pos: usize) -> (r: Result<(Production, usize), ParseError>)
        requires
            pos <= input@.len(),
        ensures
            r matches Ok(p) ==> pos < p.1 <= input@.len() && spec_production(input@, pos as int)
                == Some((production_view(p.0), p.1 as int)) && spec_production_wf(p.0),
            r is Err ==> spec_production(input@, pos as int) is None,
    {
        let mut symbols: Vec<Symbol> = Vec::new();
        let mut p = pos;
        loop
            invariant_except_break
                spec_symbols(input@, pos as int) == match spec_symbols(input@, p as int) {
                    Some((rest, e)) => Some((symbol_seq_view(symbols@) + rest, e)),
                    None => None::<(Seq<SpecSymbol>, int)>,
                },
            invariant
                pos <= p <= input@.len(),
            ensures
                pos <= p <= input@.len(),
                symbols@.len() >= 1,
                p > pos,
                spec_symbols(input@, pos as int) == Some(
                    (symbol_seq_view(symbols@), p as int),
                ),
            decreases input@.len() - p,
        {
            proof {
                assert(symbol_seq_view(symbols@) + Seq::<SpecSymbol>::empty() =~= symbol_seq_view(
                    symbols@,
                ));
            }
            let q = skip_trivia(input, p);
            if q >= input.len() {
                proof {
                    assert(spec_symbols(input@, p as int) is None);
                    assert(spec_production(input@, pos as int) is None);
                }
                return Err(ParseError { pos: q });
            }
            if input[q] == 61 {
                // `=`: end of the symbol list
                proof {
                    assert(spec_symbols(input@, p as int) == Some(
                        (Seq::<SpecSymbol>::empty(), q + 1),
                    ));
                }
                if symbols.len() == 0 {
                    proof {
                        assert(spec_symbols(input@, pos as int) == Some(
                            (symbol_seq_view(symbols@), q + 1),
                        ));
                        assert(symbol_seq_view(symbols@).len() == 0);
                        assert(spec_production(input@, pos as int) is None);
                    }
                    return Err(ParseError { pos: q });
                }
                p = q + 1;
                break ;
            }
            let (sym, p2) = match Symbol::parse(input, q) {
                Ok(pair) => pair,
                Err(e) => {
                    proof {
                        assert(spec_symbols(input@, p as int) is None);
                        assert(spec_production(input@, pos as int) is None);
                    }
                    return Err(e);
                },
            };
            let ghost prev = symbols@;
            symbols.push(sym);
            proof {
                assert(symbols@ =~= prev.push(sym));
                assert forall|rest: Seq<SpecSymbol>|
                    symbol_seq_view(prev) + (seq![symbol_view(sym)] + rest) =~= symbol_seq_view(
                        symbols@,
                    ) + rest by {
                    assert(symbol_seq_view(symbols@) =~= symbol_seq_view(prev).push(
                        symbol_view(sym),
                    ));
                }
            }
            p = p2;
        }
        let ghost pmark = p as int;
        proof {
            lemma_ident_ascii(input@, pmark);
        }
        let (rhsb, p1) = parse_ident_bytes(input, p)?;
        let p2 = expect_byte(input, p1, 44)?;
        let rhs = ident_string(rhsb);
        let result = Production { symbols, rhs };
        Ok((result, p2))
    }
}

impl NonTerminal {
    /// Parses one non-terminal — a name, then braced productions, at least
    /// one — exactly as [`spec_non_terminal`] reads it.
    pub fn parse(input: &[u8], pos: usize) -> (r: Result<(NonTerminal, usize), ParseError>)
        requires
            pos <= input@.len(),
        ensures
            r matches Ok(p) ==> pos < p.1 <= input@.len() && spec_non_terminal(input@, pos as int)
                == Some((non_terminal_view(p.0), p.1 as int)) && spec_non_terminal_wf(p.0),
            r is Err ==> spec_non_terminal(input@, pos as int) is None,
    {
        proof {
            lemma_ident_ascii(input@, pos as int);
        }
        let (nameb, p1) = parse_ident_bytes(input, pos)?;
        let mut p = expect_byte(input, p1, 123)?;
        let ghost start = p as int;
        let mut productions: Vec<Production> = Vec::new();
        loop
            invariant_except_break
                spec_productions(input@, start) == match spec_productions(input@, p as int) {
                    Some((rest, e)) => Some(
                        (
                            Seq::new(
                                productions@.len(),
                                |i: int| production_view(productions@[i]),
                            ) + rest,
                            e,
                        ),
                    ),
                    None => None::<(Seq<SpecProduction>, int)>,
                },
            invariant
                start <= p <= input@.len(),
                pos < start <= input@.len(),
                pos <= input@.len(),
                spec_ident(input@, pos as int) == Some((nameb@, p1 as int)),
                spec_expect(input@, p1 as int, 123) == Some(start),
                forall|i: int|
                    0 <= i < productions@.len() ==> spec_production_wf(
                        #[trigger] productions@[i],
                    ),
            ensures
                pos < p <= input@.len(),
                productions@.len() >= 1,
                forall|i: int|
                    0 <= i < productions@.len() ==> spec_production_wf(
                        #[trigger] productions@[i],
                    ),
                spec_productions(input@, start) == Some(
                    (
                        Seq::new(productions@.len(), |i: int| production_view(productions@[i])),
                        p as int,
                    ),
                ),
            decreases input@.len() - p,
        {
            proof {
                assert(Seq::new(productions@.len(), |i: int| production_view(productions@[i]))
                    + Seq::<SpecProduction>::empty() =~= Seq::new(
                    productions@.len(),
                    |i: int| production_view(productions@[i]),
                ));
            }
            let q = skip_trivia(input, p);
            if q >= input.len() {
                proof {
                    assert(spec_productions(input@, p as int) is None);
                    assert(spec_productions(input@, start) is None);
                    assert(spec_non_terminal(input@, pos as int) is None);
                }
                return Err(ParseError { pos: q });
            }
            if input[q] == 125 {
                // `}`: end of the production list
                proof {
                    assert(spec_productions(input@, p as int) == Some(
                        (Seq::<SpecProduction>::empty(), q + 1),
                    ));
                }
                if productions.len() == 0 {
                    proof {
                        assert(Seq::new(
                            productions@.len(),
                            |i: int| production_view(productions@[i]),
                        ) =~= Seq::<SpecProduction>::empty());
                        assert(spec_productions(input@, start) == Some(
                            (Seq::<SpecProduction>::empty(), q + 1),
                        ));
                        assert(spec_non_terminal(input@, pos as int) is None);
                    }
                    return Err(ParseError { pos: q });
                }
                p = q + 1;
                break ;
            }
            let (prod, p2) = match Production::parse(input, q) {
                Ok(pair) => pair,
                Err(e) => {
                    proof {
                        assert(spec_production(input@, q as int) is None);
                        assert(spec_productions(input@, p as int) is None);
                        assert(spec_productions(input@, start) is None);
                        assert(spec_non_terminal(input@, pos as int) is None);
                    }
                    return Err(e);
                },
            };
            let ghost prev = productions@;
            productions.push(prod);
            proof {
                assert(productions@ =~= prev.push(prod));
                assert forall|rest: Seq<SpecProduction>|
                    Seq::new(prev.len(), |i: int| production_view(prev[i])) + (seq![
                        production_view(prod),
                    ] + rest) =~= Seq::new(
                        productions@.len(),
                        |i: int| production_view(productions@[i]),
                    ) + rest by {
                    assert(Seq::new(productions@.len(), |i: int| production_view(productions@[i]))
                        =~= Seq::new(prev.len(), |i: int| production_view(prev[i])).push(
                        production_view(prod),
                    ));
                }
            }
            p = p2;
        }
        let name = ident_string(nameb);
        let result = NonTerminal { name, productions };
        proof {
            assert(non_terminal_view(result).productions =~= Seq::new(
                result.productions@.len(),
                |i: int| production_view(result.productions@[i]),
            ));
        }
        Ok((result, p))
    }
}

impl Grammar {
    /// Parses a whole grammar — non-terminals until the input is used up —
    /// exactly as [`spec_grammar`] reads it.
    pub fn parse(input: &[u8]) -> (r: Result<Grammar, ParseError>)
        ensures
            r matches Ok(g) ==> spec_grammar(input@) == Some(grammar_view(g)) && spec_grammar_wf(
                g,
            ),
            r is Err ==> spec_grammar(input@) is None,
    {
        let mut non_terminals: Vec<NonTerminal> = Vec::new();
        let mut p: usize = 0;
        loop
            invariant_except_break
                spec_non_terminals(input@, 0) == match spec_non_terminals(input@, p as int) {
                    Some((rest, e)) => Some(
                        (
                            Seq::new(
                                non_terminals@.len(),
                                |i: int| non_terminal_view(non_terminals@[i]),
                            ) + rest,
                            e,
                        ),
                    ),
                    None => None::<(Seq<SpecNonTerminal>, int)>,
                },
            invariant
                p <= input@.len(),
                forall|i: int|
                    0 <= i < non_terminals@.len() ==> spec_non_terminal_wf(
                        #[trigger] non_terminals@[i],
                    ),
            ensures
                forall|i: int|
                    0 <= i < non_terminals@.len() ==> spec_non_terminal_wf(
                        #[trigger] non_terminals@[i],
                    ),
                spec_non_terminals(input@, 0) matches Some((nts, e)) && nts == Seq::new(
                    non_terminals@.len(),
                    |i: int| non_terminal_view(non_terminals@[i]),
                ),
            decreases input@.len() - p,
        {
            proof {
                assert(Seq::new(
                    non_terminals@.len(),
                    |i: int| non_terminal_view(non_terminals@[i]),
                ) + Seq::<SpecNonTerminal>::empty() =~= Seq::new(
                    non_terminals@.len(),
                    |i: int| non_terminal_view(non_terminals@[i]),
                ));
            }
            let q = skip_trivia(input, p);
            if q >= input.len() {
                proof {
                    assert(spec_non_terminals(input@, p as int) == Some(
                        (Seq::<SpecNonTerminal>::empty(), q as int),
                    ));
                }
                break ;
            }
            let (nt, p2) = match NonTerminal::parse(input, q) {
                Ok(pair) => pair,
                Err(e) => {
                    proof {
                        assert(spec_non_terminals(input@, p as int) is None);
                        assert(spec_grammar(input@) is None);
                    }
                    return Err(e);
                },
            };
            let ghost prev = non_terminals@;
            non_terminals.push(nt);
            proof {
                assert(non_terminals@ =~= prev.push(nt));
                assert forall|rest: Seq<SpecNonTerminal>|
                    Seq::new(prev.len(), |i: int| non_terminal_view(prev[i])) + (seq![
                        non_terminal_view(nt),
                    ] + rest) =~= Seq::new(
                        non_terminals@.len(),
                        |i: int| non_terminal_view(non_terminals@[i]),
                    ) + rest by {
                    assert(Seq::new(
                        non_terminals@.len(),
                        |i: int| non_terminal_view(non_terminals@[i]),
                    ) =~= Seq::new(prev.len(), |i: int| non_terminal_view(prev[i])).push(
                        non_terminal_view(nt),
                    ));
                }
            }
            p = p2;
        }
        let result = Grammar { non_terminals };
        proof {
            assert(grammar_view(result).non_terminals =~= Seq::new(
                result.non_terminals@.len(),
                |i: int| non_terminal_view(result.non_terminals@[i]),
            ));
        }
        Ok(result)
    }
}


/// The primitive carrier names a bound symbol may reference directly
/// (`u8`, `u32`, `i32`, `u64`, `i64`, `f32`, `f64`), as UTF-8 bytes.
pub open spec fn is_primitive_name(n: Seq<u8>) -> bool {
    ||| n == seq![117u8, 56u8]
    ||| n == seq![117u8, 51u8, 50u8]
    ||| n == seq![105u8, 51u8, 50u8]
    ||| n == seq![117u8, 54u8, 52u8]
    ||| n == seq![105u8, 54u8, 52u8]
    ||| n == seq![102u8, 51u8, 50u8]
    ||| n == seq![102u8, 54u8, 52u8]
}

/// The name `n` (as UTF-8 bytes) resolves in `g`: it is a declared
/// non-terminal or a primitive carrier.
pub open spec fn spec_name_resolves(g: Grammar, n: Seq<u8>) -> bool {
    is_primitive_name(n) || exists|i: int|
        0 <= i < g.non_terminals@.len() && vstd::utf8::encode_utf8(
            (#[trigger] g.non_terminals@[i]).name@,
        ) == n
}

/// Every type name the shape mentions resolves in `g`.
pub open spec fn spec_shape_resolves(g: Grammar, b: BoundSymbol) -> bool
    decreases b,
{
    match b {
        BoundSymbol::Vec(t) => spec_name_resolves(g, vstd::utf8::encode_utf8(t@)),
        BoundSymbol::Repeated(t) => spec_name_resolves(g, vstd::utf8::encode_utf8(t@)),
        BoundSymbol::Sized(inner) => spec_shape_resolves(g, *inner),
        BoundSymbol::Builtin(_) => true,
        BoundSymbol::Type(t) => spec_name_resolves(g, vstd::utf8::encode_utf8(t@)),
    }
}

/// Every type name the symbol mentions resolves in `g`.
pub open spec fn spec_symbol_resolves(g: Grammar, s: Symbol) -> bool {
    match s {
        Symbol::Literal(_) => true,
        Symbol::Bound(_, b) => spec_shape_resolves(g, b),
    }
}

/// Every type name the production mentions resolves in `g`.
pub open spec fn spec_production_resolves(g: Grammar, p: Production) -> bool {
    forall|k: int|
        0 <= k < p.symbols@.len() ==> spec_symbol_resolves(g, #[trigger] p.symbols@[k])
}

/// Every type name the non-terminal mentions resolves in `g`.
pub open spec fn spec_non_terminal_resolves(g: Grammar, nt: NonTerminal) -> bool {
    forall|j: int|
        0 <= j < nt.productions@.len() ==> spec_production_resolves(
            g,
            #[trigger] nt.productions@[j],
        )
}

/// Every `Type` reference and every `vec`/`repeated`/`sized` element name in
/// the grammar names a declared non-terminal or a primitive carrier.
pub open spec fn spec_grammar_resolves(g: Grammar) -> bool {
    forall|i: int|
        0 <= i < g.non_terminals@.len() ==> spec_non_terminal_resolves(
            g,
            #[trigger] g.non_terminals@[i],
        )
}

/// Byte-wise equality of two slices.
fn bytes_match(a: &[u8], b: &[u8]) -> (r: bool)
    ensures
        r == (a@ == b@),
{
    if a.len() != b.len() {
        return false;
    }
    let mut i: usize = 0;
    while i < a.len()
        invariant
            i <= a@.len(),
            a@.len() == b@.len(),
            forall|j: int| 0 <= j < i ==> a@[j] == b@[j],
        decreases a@.len() - i,
    {
        if a[i] != b[i] {
            return false;
        }
        i = i + 1;
    }
    proof {
        assert(a@ =~= b@);
    }
    true
}

impl Grammar {
    /// Does `n` name a declared non-terminal or a primitive carrier?
    fn name_resolves(&self, n: &[u8]) -> (r: bool)
        ensures
            r == spec_name_resolves(*self, n@),
    {
        if bytes_match(n, &[117, 56]) || bytes_match(n, &[117, 51, 50]) || bytes_match(
            n,
            &[105, 51, 50],
        ) || bytes_match(n, &[117, 54, 52]) || bytes_match(n, &[105, 54, 52]) || bytes_match(
            n,
            &[102, 51, 50],
        ) || bytes_match(n, &[102, 54, 52]) {
            return true;
        }
        let mut i: usize = 0;
        while i < self.non_terminals.len()
            invariant
                i <= self.non_terminals@.len(),
                !is_primitive_name(n@),
                forall|x: int|
                    0 <= x < i ==> vstd::utf8::encode_utf8(
                        (#[trigger] self.non_terminals@[x]).name@,
                    ) != n@,
            decreases self.non_terminals@.len() - i,
        {
            if bytes_match(self.non_terminals[i].name.as_str().as_bytes(), n) {
                return true;
            }
            i = i + 1;
        }
        false
    }

    /// Does every type name in the shape resolve?
    fn shape_resolves(&self, b: &BoundSymbol) -> (r: bool)
        ensures
            r == spec_shape_resolves(*self, *b),
        decreases b,
    {
        match b {
            BoundSymbol::Vec(t) => self.name_resolves(t.as_str().as_bytes()),
            BoundSymbol::Repeated(t) => self.name_resolves(t.as_str().as_bytes()),
            BoundSymbol::Sized(inner) => self.shape_resolves(inner),
            BoundSymbol::Builtin(_) => true,
            BoundSymbol::Type(t) => self.name_resolves(t.as_str().as_bytes()),
        }
    }

    /// Checks that every `Type` reference and every `vec`/`repeated`/`sized`
    /// element name in the grammar names a declared non-terminal or a
    /// primitive carrier.
    pub fn types_resolve(&self) -> (r: bool)
        ensures
            r == spec_grammar_resolves(*self),
    {
        let mut i: usize = 0;
        while i < self.non_terminals.len()
            invariant
                i <= self.non_terminals@.len(),
                forall|x: int|
                    0 <= x < i ==> spec_non_terminal_resolves(
                        *self,
                        #[trigger] self.non_terminals@[x],
                    ),
            decreases self.non_terminals@.len() - i,
        {
            let nt = &self.non_terminals[i];
            let mut j: usize = 0;
            while j < nt.productions.len()
                invariant
                    i < self.non_terminals@.len(),
                    *nt == self.non_terminals@[i as int],
                    j <= nt.productions@.len(),
                    forall|y: int|
                        0 <= y < j ==> spec_production_resolves(
                            *self,
                            #[trigger] nt.productions@[y],
                        ),
                decreases nt.productions@.len() - j,
            {
                let p = &nt.productions[j];
                let mut k: usize = 0;
                while k < p.symbols.len()
                    invariant
                        i < self.non_terminals@.len(),
                        *nt == self.non_terminals@[i as int],
                        j < nt.productions@.len(),
                        *p == nt.productions@[j as int],
                        k <= p.symbols@.len(),
                        forall|z: int|
                            0 <= z < k ==> spec_symbol_resolves(
                                *self,
                                #[trigger] p.symbols@[z],
                            ),
                    decreases p.symbols@.len() - k,
                {
                    match &p.symbols[k] {
                        Symbol::Literal(_) => {
                        },
                        Symbol::Bound(_, shape) => {
                            if !self.shape_resolves(shape) {
                                proof {
                                    assert(!spec_symbol_resolves(*self, p.symbols@[k as int]));
                                    assert(!spec_production_resolves(
                                        *self,
                                        nt.productions@[j as int],
                                    ));
                                    assert(!spec_non_terminal_resolves(
                                        *self,
                                        self.non_terminals@[i as int],
                                    ));
                                    assert(!spec_grammar_resolves(*self));
                                }
                                return false;
                            }
                        },
                    }
                    k = k + 1;
                }
                j = j + 1;
            }
            i = i + 1;
        }
        true
    }
}

} // verus!

