use vstd::prelude::*;

use crate::alternation::Alternation;
use crate::boundary::Boundary;
use crate::char_class::{CharClass, ClassItem};
use crate::error::{CompileError, CompileErrorKind, Feature};
use crate::grapheme::Grapheme;
use crate::group::{Capture, Group};
use crate::options::{CompileOptions, RegexFlavor};
use crate::repetition::{Greedy, Repetition, RepetitionKind};
use crate::rule::Rulex;
use crate::span::Span;
use crate::strutil::{dec_str, push_char, push_u32_decimal};

verus! {

/// Compile-time state threaded through code generation. It tracks the
/// index of the next capturing group; it is not observable in the
/// emitted regex.
pub struct CompileState {
    pub next_group_idx: u32,
}

impl CompileState {
    /// The initial state: the first capturing group has index 1.
    pub fn new() -> (r: Self)
        ensures
            r.next_group_idx == 1,
    {
        CompileState { next_group_idx: 1 }
    }
}

/// The characters that must be escaped when a literal is emitted
/// outside a character class.
pub open spec fn is_metachar(c: char) -> bool {
    ||| c == '\\'
    ||| c == '.'
    ||| c == '['
    ||| c == ']'
    ||| c == '{'
    ||| c == '}'
    ||| c == '('
    ||| c == ')'
    ||| c == '*'
    ||| c == '+'
    ||| c == '?'
    ||| c == '|'
    ||| c == '^'
    ||| c == '$'
}

/// The characters that must be escaped inside a character class.
pub open spec fn is_class_metachar(c: char) -> bool {
    ||| c == '\\'
    ||| c == '['
    ||| c == ']'
    ||| c == '^'
    ||| c == '-'
}

/// One literal character, escaped if it is a metacharacter.
pub open spec fn escape_char(c: char) -> Seq<char> {
    if is_metachar(c) {
        seq!['\\', c]
    } else {
        seq![c]
    }
}

/// One character inside a class, escaped if necessary there.
pub open spec fn class_escape_char(c: char) -> Seq<char> {
    if is_class_metachar(c) {
        seq!['\\', c]
    } else {
        seq![c]
    }
}

/// The regex text of a literal: each character in order, escaped.
pub open spec fn regex_literal(s: Seq<char>) -> Seq<char>
    decreases s.len(),
{
    if s.len() == 0 {
        Seq::empty()
    } else {
        regex_literal(s.drop_last()) + escape_char(s.last())
    }
}

/// The regex text of one character class item.
pub open spec fn regex_class_item(item: ClassItem) -> Seq<char> {
    match item {
        ClassItem::Char(c) => class_escape_char(c),
        ClassItem::Range(lo, hi) => class_escape_char(lo) + seq!['-'] + class_escape_char(hi),
        ClassItem::Named(name) => seq!['\\'] + name@,
    }
}

/// The regex text of a sequence of class items, in order.
pub open spec fn regex_class_items(items: Seq<ClassItem>) -> Seq<char>
    decreases items.len(),
{
    if items.len() == 0 {
        Seq::empty()
    } else {
        regex_class_items(items.drop_last()) + regex_class_item(items.last())
    }
}

/// The regex text of a character class: `[...]`, or `[^...]` when
/// negated.
pub open spec fn regex_char_class(cc: CharClass) -> Seq<char> {
    if cc.negated {
        seq!['[', '^'] + regex_class_items(cc.items@) + seq![']']
    } else {
        seq!['['] + regex_class_items(cc.items@) + seq![']']
    }
}

/// The opening of a capturing group: `(` for a plain capture, the
/// flavor-specific form for a named capture.
pub open spec fn capture_prefix(c: Capture, flavor: RegexFlavor) -> Seq<char> {
    match c.name {
        Option::None => seq!['('],
        Option::Some(name) => if flavor == RegexFlavor::Python {
            seq!['(', '?', 'P', '<'] + name@ + seq!['>']
        } else {
            seq!['(', '?', '<'] + name@ + seq!['>']
        },
    }
}

/// The canonical quantifier for a repetition kind: `?`, `*`, `+`,
/// `{n}`, `{n,}`, `{,m}` or `{n,m}`.
pub open spec fn quant_str(kind: RepetitionKind) -> Seq<char> {
    match kind.upper_bound {
        Option::Some(u) => if kind.lower_bound == 0 && u == 1 {
            seq!['?']
        } else if kind.lower_bound == u {
            seq!['{'] + dec_str(u as nat) + seq!['}']
        } else if kind.lower_bound == 0 {
            seq!['{', ','] + dec_str(u as nat) + seq!['}']
        } else {
            seq!['{'] + dec_str(kind.lower_bound as nat) + seq![','] + dec_str(u as nat)
                + seq!['}']
        },
        Option::None => if kind.lower_bound == 0 {
            seq!['*']
        } else if kind.lower_bound == 1 {
            seq!['+']
        } else {
            seq!['{'] + dec_str(kind.lower_bound as nat) + seq![',', '}']
        },
    }
}

/// The regex text of a boundary assertion.
pub open spec fn regex_boundary(b: Boundary) -> Seq<char> {
    match b {
        Boundary::Start => seq!['^'],
        Boundary::End => seq!['$'],
        Boundary::Word => seq!['\\', 'b'],
        Boundary::NotWord => seq!['\\', 'B'],
    }
}

/// The regex text of a rule, for the given flavor. This is the
/// functional specification of code generation; `Rulex::comp` emits
/// exactly this text whenever it succeeds.
pub open spec fn regex_rulex(r: Rulex, flavor: RegexFlavor) -> Seq<char>
    decreases r,
{
    match r {
        Rulex::Literal(l) => regex_literal(l@),
        Rulex::CharClass(cc) => regex_char_class(cc),
        Rulex::Group(g) => regex_group(g, flavor),
        Rulex::Alternation(a) => regex_alt(a.rules@, flavor),
        Rulex::Repetition(rep) => (if rep.rule.spec_needs_parens_before_repetition() {
            seq!['(', '?', ':'] + regex_rulex(rep.rule, flavor) + seq![')']
        } else {
            regex_rulex(rep.rule, flavor)
        }) + quant_str(rep.kind) + (if rep.greedy is No {
            seq!['?']
        } else {
            Seq::empty()
        }),
        Rulex::Boundary(b) => regex_boundary(b),
        Rulex::Grapheme(_) => seq!['\\', 'X'],
    }
}

/// The regex text of a group: a capturing group wraps its children in
/// its capture's parentheses; a non-capturing group is transparent and
/// emits its children bare.
pub open spec fn regex_group(g: Group, flavor: RegexFlavor) -> Seq<char>
    decreases g,
{
    match g.capture {
        Option::Some(c) => capture_prefix(c, flavor) + regex_seq(g.rules@, flavor) + seq![')'],
        Option::None => regex_seq(g.rules@, flavor),
    }
}

/// The regex text of a sequence of rules, concatenated in order.
pub open spec fn regex_seq(rules: Seq<Rulex>, flavor: RegexFlavor) -> Seq<char>
    decreases rules,
{
    if rules.len() == 0 {
        Seq::empty()
    } else {
        regex_seq(rules.drop_last(), flavor) + regex_rulex(rules.last(), flavor)
    }
}

/// The regex text of an alternation: the alternatives joined with `|`.
pub open spec fn regex_alt(rules: Seq<Rulex>, flavor: RegexFlavor) -> Seq<char>
    decreases rules,
{
    if rules.len() == 0 {
        Seq::empty()
    } else if rules.len() == 1 {
        regex_rulex(rules[0], flavor)
    } else {
        regex_alt(rules.drop_last(), flavor) + seq!['|'] + regex_rulex(rules.last(), flavor)
    }
}

/// True when every feature in the rule is supported by the flavor:
/// `Grapheme` cannot be compiled for JavaScript.
pub open spec fn regex_ok(r: Rulex, flavor: RegexFlavor) -> bool
    decreases r,
{
    match r {
        Rulex::Group(g) => seq_ok(g.rules@, flavor),
        Rulex::Alternation(a) => seq_ok(a.rules@, flavor),
        Rulex::Repetition(rep) => regex_ok(rep.rule, flavor),
        Rulex::Grapheme(_) => flavor != RegexFlavor::JavaScript,
        _ => true,
    }
}

/// True when every rule in the sequence is supported by the flavor.
pub open spec fn seq_ok(rules: Seq<Rulex>, flavor: RegexFlavor) -> bool
    decreases rules,
{
    if rules.len() == 0 {
        true
    } else {
        seq_ok(rules.drop_last(), flavor) && regex_ok(rules.last(), flavor)
    }
}

/// The span a failed compilation reports: the span of the first
/// unsupported expression in emission order. Meaningful only when the
/// rule is not supported by the flavor.
pub open spec fn bad_span(r: Rulex, flavor: RegexFlavor) -> Span
    decreases r,
{
    match r {
        Rulex::Group(g) => seq_bad_span(g.rules@, flavor),
        Rulex::Alternation(a) => seq_bad_span(a.rules@, flavor),
        Rulex::Repetition(rep) => bad_span(rep.rule, flavor),
        Rulex::Grapheme(g) => g.span,
        _ => Span { start: 0usize, end: 0usize },
    }
}

/// The reported span of the first unsupported rule in a sequence.
pub open spec fn seq_bad_span(rules: Seq<Rulex>, flavor: RegexFlavor) -> Span
    decreases rules,
{
    if rules.len() == 0 {
        Span { start: 0usize, end: 0usize }
    } else if !seq_ok(rules.drop_last(), flavor) {
        seq_bad_span(rules.drop_last(), flavor)
    } else {
        bad_span(rules.last(), flavor)
    }
}

/// When the first unsupported rule of a sequence stands at `i`, the
/// sequence reports that rule's span.
proof fn lemma_seq_bad_span(rules: Seq<Rulex>, flavor: RegexFlavor, i: int)
    requires
        0 <= i < rules.len(),
        seq_ok(rules.take(i), flavor),
        !regex_ok(rules[i], flavor),
    ensures
        seq_bad_span(rules, flavor) == bad_span(rules[i], flavor),
    decreases rules.len(),
{
    if i == rules.len() - 1 {
        assert(rules.take(i) =~= rules.drop_last());
    } else {
        assert(rules.drop_last()[i] == rules[i]);
        assert(rules.drop_last().take(i) =~= rules.take(i));
        assert(!seq_ok(rules.drop_last(), flavor)) by {
            seq_ok_means_all(rules.drop_last(), flavor);
        }
        lemma_seq_bad_span(rules.drop_last(), flavor, i);
    }
}

/// A sequence is a prefix of itself extended by any suffix.
proof fn lemma_eq_concat_prefix(a: Seq<char>, b: Seq<char>, t: Seq<char>)
    requires
        b == a + t,
    ensures
        a.is_prefix_of(b),
{
    assert(a =~= (a + t).subrange(0, a.len() as int));
}

/// Prefixes compose.
proof fn lemma_prefix_trans(a: Seq<char>, b: Seq<char>, c: Seq<char>)
    requires
        a.is_prefix_of(b),
        b.is_prefix_of(c),
    ensures
        a.is_prefix_of(c),
{
    assert forall|k: int| 0 <= k < a.len() implies c[k] == a[k] by {
        assert(b[k] == c.subrange(0, b.len() as int)[k]);
        assert(a[k] == b.subrange(0, a.len() as int)[k]);
    }
    assert(a =~= c.subrange(0, a.len() as int));
}

impl Rulex {
    /// Appends the regex text of this rule to the buffer. Fails with
    /// `Unsupported` if and only if the rule uses a feature the flavor
    /// does not have; the buffer then holds a partial emission that the
    /// caller discards.
    pub fn comp(&self, options: CompileOptions, state: &mut CompileState, buf: &mut String) -> (r:
        Result<(), CompileError>)
        ensures
            r is Ok <==> regex_ok(*self, options.flavor),
            r is Ok ==> final (buf)@ == old(buf)@ + regex_rulex(*self, options.flavor),
            r is Err ==> r->Err_0 == (CompileError {
                kind: CompileErrorKind::Unsupported(Feature::Grapheme, options.flavor),
                span: bad_span(*self, options.flavor),
            }),
            r is Err ==> old(buf)@.is_prefix_of(final (buf)@),
        decreases *self,
    {
        match self {
            Rulex::Literal(l) => {
                comp_literal(l, buf);
                Ok(())
            },
            Rulex::CharClass(cc) => {
                cc.comp(options, state, buf)
            },
            Rulex::Group(g) => {
                g.comp(options, state, buf)
            },
            Rulex::Alternation(a) => {
                a.comp(options, state, buf)
            },
            Rulex::Repetition(rep) => {
                rep.comp(options, state, buf)
            },
            Rulex::Boundary(b) => {
                match b {
                    Boundary::Start => push_char(buf, '^'),
                    Boundary::End => push_char(buf, '$'),
                    Boundary::Word => {
                        push_char(buf, '\\');
                        push_char(buf, 'b');
                    },
                    Boundary::NotWord => {
                        push_char(buf, '\\');
                        push_char(buf, 'B');
                    },
                }
                proof {
                    assert(buf@ =~= old(buf)@ + regex_boundary(*b));
                }
                Ok(())
            },
            Rulex::Grapheme(g) => {
                let r = g.comp(options, state, buf);
                proof {
                    if r is Err {
                        assert(old(buf)@ =~= buf@.subrange(0, old(buf)@.len() as int));
                    }
                }
                r
            },
        }
    }

    /// Parses a source string and compiles it to a regex string for
    /// the flavor in the options. On success the output is exactly the
    /// regex text of some well-formed rule that the flavor supports; an
    /// error is either the forwarded parse error, ready for the
    /// diagnostic engine, or the compiler's unsupported-feature error
    /// for this flavor. A blank source compiles to the empty string.
    pub fn parse_and_compile(input: &str, options: CompileOptions) -> (r: Result<
        String,
        CompileError,
    >)
        ensures
            r is Ok ==> exists|rx: Rulex|
                rx.wf() && regex_ok(rx, options.flavor) && r->Ok_0@ == regex_rulex(
                    rx,
                    options.flavor,
                ),
            r is Ok ==> forall|toks: Seq<(crate::token::Token, Span)>|
                #[trigger] crate::tokenize::tokens_ok(vstd::utf8::encode_utf8(input@), toks)
                    ==> crate::parse::consumed_clean(toks, 0, toks.len() as int),
            r is Err ==> match r->Err_0.kind {
                CompileErrorKind::ParseError(k) => crate::diagnostics::parse_error_reqs(
                    k,
                    r->Err_0.span,
                    vstd::utf8::encode_utf8(input@).len() as int,
                ) && !(k is Multiple),
                CompileErrorKind::Unsupported(f, fl) => f == Feature::Grapheme && fl
                    == options.flavor,
                _ => false,
            },
            crate::tokenize::skip_spec(
                vstd::utf8::encode_utf8(input@),
                0,
            ) == vstd::utf8::encode_utf8(input@).len() ==> r is Ok && r->Ok_0@ == Seq::<
                char,
            >::empty(),
    {
        let parsed = match Rulex::parse(input, options.parse_options) {
            Ok(p) => p,
            Err(e) => {
                return Err(e.to_compile_error());
            },
        };
        let ghost grx = parsed;
        match parsed.compile(options) {
            Ok(s) => {
                proof {
                    assert(grx.wf() && regex_ok(grx, options.flavor));
                }
                Ok(s)
            },
            Err(e) => Err(e),
        }
    }

    /// Compiles this rule to a regex string for the given flavor.
    pub fn compile(&self, options: CompileOptions) -> (r: Result<String, CompileError>)
        ensures
            r is Ok <==> regex_ok(*self, options.flavor),
            r is Ok ==> r->Ok_0@ == regex_rulex(*self, options.flavor),
            r is Err ==> r->Err_0 == (CompileError {
                kind: CompileErrorKind::Unsupported(Feature::Grapheme, options.flavor),
                span: bad_span(*self, options.flavor),
            }),
    {
        let mut buf = String::new();
        let mut state = CompileState::new();
        match self.comp(options, &mut state, &mut buf) {
            Ok(()) => Ok(buf),
            Err(e) => Err(e),
        }
    }
}

/// Appends the escaped text of a literal to the buffer.
fn comp_literal(l: &String, buf: &mut String)
    ensures
        final (buf)@ == old(buf)@ + regex_literal(l@),
{
    let s = l.as_str();
    let n = s.unicode_len();
    let mut i: usize = 0;
    while i < n
        invariant
            n == l@.len(),
            s@ == l@,
            0 <= i <= n,
            buf@ == old(buf)@ + regex_literal(l@.take(i as int)),
        decreases n - i,
    {
        let c = s.get_char(i);
        let escape = match c {
            '\\' | '.' | '[' | ']' | '{' | '}' | '(' | ')' | '*' | '+' | '?' | '|' | '^' | '$'
                => true,
            _ => false,
        };
        if escape {
            push_char(buf, '\\');
        }
        push_char(buf, c);
        proof {
            assert(escape == is_metachar(c));
            assert(l@.take(i + 1).drop_last() =~= l@.take(i as int));
            assert(l@.take(i + 1).last() == l@[i as int]);
            assert(buf@ =~= old(buf)@ + regex_literal(l@.take(i + 1)));
        }
        i = i + 1;
    }
    proof {
        assert(l@.take(n as int) =~= l@);
    }
}

impl CharClass {
    /// Appends `[...]` (or `[^...]` when negated) to the buffer.
    pub fn comp(&self, options: CompileOptions, state: &mut CompileState, buf: &mut String) -> (r:
        Result<(), CompileError>)
        ensures
            r is Ok,
            final (buf)@ == old(buf)@ + regex_char_class(*self),
    {
        push_char(buf, '[');
        if self.negated {
            push_char(buf, '^');
        }
        let ghost open_part = if self.negated {
            seq!['[', '^']
        } else {
            seq!['[']
        };
        let mut i: usize = 0;
        while i < self.items.len()
            invariant
                0 <= i <= self.items@.len(),
                open_part == if self.negated {
                    seq!['[', '^']
                } else {
                    seq!['[']
                },
                buf@ == old(buf)@ + open_part + regex_class_items(self.items@.take(i as int)),
            decreases self.items@.len() - i,
        {
            match &self.items[i] {
                ClassItem::Char(c) => {
                    comp_class_char(*c, buf);
                },
                ClassItem::Range(lo, hi) => {
                    comp_class_char(*lo, buf);
                    push_char(buf, '-');
                    comp_class_char(*hi, buf);
                },
                ClassItem::Named(name) => {
                    push_char(buf, '\\');
                    buf.append(name.as_str());
                },
            }
            proof {
                assert(self.items@.take(i + 1).drop_last() =~= self.items@.take(i as int));
                assert(self.items@.take(i + 1).last() == self.items@[i as int]);
                assert(buf@ =~= old(buf)@ + open_part + regex_class_items(
                    self.items@.take(i + 1),
                ));
            }
            i = i + 1;
        }
        push_char(buf, ']');
        proof {
            assert(self.items@.take(self.items@.len() as int) =~= self.items@);
            assert(buf@ =~= old(buf)@ + regex_char_class(*self));
        }
        Ok(())
    }
}

/// Appends one class character, escaped if necessary.
fn comp_class_char(c: char, buf: &mut String)
    ensures
        final (buf)@ == old(buf)@ + class_escape_char(c),
{
    let escape = match c {
        '\\' | '[' | ']' | '^' | '-' => true,
        _ => false,
    };
    if escape {
        push_char(buf, '\\');
    }
    push_char(buf, c);
    proof {
        assert(escape == is_class_metachar(c));
        assert(buf@ =~= old(buf)@ + class_escape_char(c));
    }
}

impl Group {
    /// Appends the group's text: a capturing group wraps its children
    /// in its capture's parentheses, a non-capturing group emits them
    /// bare.
    pub fn comp(&self, options: CompileOptions, state: &mut CompileState, buf: &mut String) -> (r:
        Result<(), CompileError>)
        ensures
            r is Ok <==> seq_ok(self.rules@, options.flavor),
            r is Ok ==> final (buf)@ == old(buf)@ + regex_group(*self, options.flavor),
            r is Err ==> r->Err_0 == (CompileError {
                kind: CompileErrorKind::Unsupported(Feature::Grapheme, options.flavor),
                span: seq_bad_span(self.rules@, options.flavor),
            }),
            r is Err ==> old(buf)@.is_prefix_of(final (buf)@),
        decreases *self,
    {
        match &self.capture {
            Option::None => {},
            Option::Some(c) => {
                if state.next_group_idx < u32::MAX {
                    state.next_group_idx = state.next_group_idx + 1;
                }
                match &c.name {
                    Option::None => {
                        push_char(buf, '(');
                    },
                    Option::Some(name) => {
                        push_char(buf, '(');
                        push_char(buf, '?');
                        if let RegexFlavor::Python = options.flavor {
                            push_char(buf, 'P');
                        }
                        push_char(buf, '<');
                        buf.append(name.as_str());
                        push_char(buf, '>');
                    },
                }
            },
        }
        let ghost prefix = if self.capture is Some {
            capture_prefix(self.capture->0, options.flavor)
        } else {
            Seq::<char>::empty()
        };
        proof {
            assert(buf@ =~= old(buf)@ + prefix);
        }
        let mut i: usize = 0;
        while i < self.rules.len()
            invariant
                0 <= i <= self.rules@.len(),
                prefix == (if self.capture is Some {
                    capture_prefix(self.capture->0, options.flavor)
                } else {
                    Seq::<char>::empty()
                }),
                buf@ == old(buf)@ + prefix + regex_seq(self.rules@.take(i as int), options.flavor),
                seq_ok(self.rules@.take(i as int), options.flavor),
            decreases self.rules@.len() - i,
        {
            let ghost mid = buf@;
            let r = self.rules[i].comp(options, state, buf);
            proof {
                assert(self.rules@.take(i + 1).drop_last() =~= self.rules@.take(i as int));
                assert(self.rules@.take(i + 1).last() == self.rules@[i as int]);
            }
            match r {
                Ok(()) => {},
                Err(e) => {
                    proof {
                        assert(!regex_ok(self.rules@[i as int], options.flavor));
                        assert(!seq_ok(self.rules@, options.flavor)) by {
                            seq_ok_means_all(self.rules@, options.flavor);
                        }
                        lemma_seq_bad_span(self.rules@, options.flavor, i as int);
                        assert(mid =~= old(buf)@ + (prefix + regex_seq(
                            self.rules@.take(i as int),
                            options.flavor,
                        )));
                        lemma_eq_concat_prefix(
                            old(buf)@,
                            mid,
                            prefix + regex_seq(self.rules@.take(i as int), options.flavor),
                        );
                        lemma_prefix_trans(old(buf)@, mid, buf@);
                    }
                    return Err(e);
                },
            }
            proof {
                assert(buf@ =~= old(buf)@ + prefix + regex_seq(
                    self.rules@.take(i + 1),
                    options.flavor,
                ));
            }
            i = i + 1;
        }
        if self.capture.is_some() {
            push_char(buf, ')');
        }
        proof {
            assert(self.rules@.take(self.rules@.len() as int) =~= self.rules@);
            assert(buf@ =~= old(buf)@ + regex_group(*self, options.flavor));
        }
        Ok(())
    }
}

impl Alternation {
    /// Appends the alternatives joined with `|`.
    pub fn comp(&self, options: CompileOptions, state: &mut CompileState, buf: &mut String) -> (r:
        Result<(), CompileError>)
        ensures
            r is Ok <==> seq_ok(self.rules@, options.flavor),
            r is Ok ==> final (buf)@ == old(buf)@ + regex_alt(self.rules@, options.flavor),
            r is Err ==> r->Err_0 == (CompileError {
                kind: CompileErrorKind::Unsupported(Feature::Grapheme, options.flavor),
                span: seq_bad_span(self.rules@, options.flavor),
            }),
            r is Err ==> old(buf)@.is_prefix_of(final (buf)@),
        decreases *self,
    {
        let mut i: usize = 0;
        while i < self.rules.len()
            invariant
                0 <= i <= self.rules@.len(),
                buf@ == old(buf)@ + regex_alt(self.rules@.take(i as int), options.flavor),
                seq_ok(self.rules@.take(i as int), options.flavor),
            decreases self.rules@.len() - i,
        {
            if i > 0 {
                push_char(buf, '|');
            }
            let ghost mid = buf@;
            proof {
                if i > 0 {
                    assert(mid =~= old(buf)@ + (regex_alt(
                        self.rules@.take(i as int),
                        options.flavor,
                    ) + seq!['|']));
                }
            }
            let r = self.rules[i].comp(options, state, buf);
            proof {
                assert(self.rules@.take(i + 1).drop_last() =~= self.rules@.take(i as int));
                assert(self.rules@.take(i + 1).last() == self.rules@[i as int]);
            }
            match r {
                Ok(()) => {},
                Err(e) => {
                    proof {
                        assert(!regex_ok(self.rules@[i as int], options.flavor));
                        assert(!seq_ok(self.rules@, options.flavor)) by {
                            seq_ok_means_all(self.rules@, options.flavor);
                        }
                        lemma_seq_bad_span(self.rules@, options.flavor, i as int);
                        if i > 0 {
                            lemma_eq_concat_prefix(
                                old(buf)@,
                                mid,
                                regex_alt(self.rules@.take(i as int), options.flavor)
                                    + seq!['|'],
                            );
                        } else {
                            lemma_eq_concat_prefix(
                                old(buf)@,
                                mid,
                                regex_alt(self.rules@.take(i as int), options.flavor),
                            );
                        }
                        lemma_prefix_trans(old(buf)@, mid, buf@);
                    }
                    return Err(e);
                },
            }
            proof {
                if i == 0 {
                    assert(buf@ =~= old(buf)@ + regex_alt(
                        self.rules@.take(i + 1),
                        options.flavor,
                    ));
                } else {
                    assert(buf@ =~= old(buf)@ + regex_alt(
                        self.rules@.take(i + 1),
                        options.flavor,
                    ));
                }
            }
            i = i + 1;
        }
        proof {
            assert(self.rules@.take(self.rules@.len() as int) =~= self.rules@);
        }
        Ok(())
    }
}

impl Repetition {
    /// Appends the repeated rule (wrapped in `(?:...)` when needed), the
    /// canonical quantifier, and `?` when the repetition is lazy.
    pub fn comp(&self, options: CompileOptions, state: &mut CompileState, buf: &mut String) -> (r:
        Result<(), CompileError>)
        ensures
            r is Ok <==> regex_ok(self.rule, options.flavor),
            r is Ok ==> final (buf)@ == old(buf)@ + (
            if self.rule.spec_needs_parens_before_repetition() {
                seq!['(', '?', ':'] + regex_rulex(self.rule, options.flavor) + seq![')']
            } else {
                regex_rulex(self.rule, options.flavor)
            }) + quant_str(self.kind) + (if self.greedy is No {
                seq!['?']
            } else {
                Seq::<char>::empty()
            }),
            r is Err ==> r->Err_0 == (CompileError {
                kind: CompileErrorKind::Unsupported(Feature::Grapheme, options.flavor),
                span: bad_span(self.rule, options.flavor),
            }),
            r is Err ==> old(buf)@.is_prefix_of(final (buf)@),
        decreases *self,
    {
        if self.rule.needs_parens_before_repetition() {
            push_char(buf, '(');
            push_char(buf, '?');
            push_char(buf, ':');
            let ghost mid = buf@;
            match self.rule.comp(options, state, buf) {
                Ok(()) => {},
                Err(e) => {
                    proof {
                        assert(mid =~= old(buf)@ + seq!['(', '?', ':']);
                        lemma_eq_concat_prefix(old(buf)@, mid, seq!['(', '?', ':']);
                        lemma_prefix_trans(old(buf)@, mid, buf@);
                    }
                    return Err(e);
                },
            }
            push_char(buf, ')');
        } else {
            match self.rule.comp(options, state, buf) {
                Ok(()) => {},
                Err(e) => {
                    return Err(e);
                },
            }
        }
        let ghost child_part = if self.rule.spec_needs_parens_before_repetition() {
            seq!['(', '?', ':'] + regex_rulex(self.rule, options.flavor) + seq![')']
        } else {
            regex_rulex(self.rule, options.flavor)
        };
        proof {
            assert(buf@ =~= old(buf)@ + child_part);
        }
        let (lower, upper) = self.kind.get_range();
        match upper {
            Option::Some(u) => {
                if lower == 0 && u == 1 {
                    push_char(buf, '?');
                } else if lower == u {
                    push_char(buf, '{');
                    push_u32_decimal(buf, u);
                    push_char(buf, '}');
                } else if lower == 0 {
                    push_char(buf, '{');
                    push_char(buf, ',');
                    push_u32_decimal(buf, u);
                    push_char(buf, '}');
                } else {
                    push_char(buf, '{');
                    push_u32_decimal(buf, lower);
                    push_char(buf, ',');
                    push_u32_decimal(buf, u);
                    push_char(buf, '}');
                }
            },
            Option::None => {
                if lower == 0 {
                    push_char(buf, '*');
                } else if lower == 1 {
                    push_char(buf, '+');
                } else {
                    push_char(buf, '{');
                    push_u32_decimal(buf, lower);
                    push_char(buf, ',');
                    push_char(buf, '}');
                }
            },
        }
        proof {
            assert(buf@ =~= old(buf)@ + child_part + quant_str(self.kind));
        }
        if let Greedy::No = self.greedy {
            push_char(buf, '?');
        }
        proof {
            assert(buf@ =~= old(buf)@ + child_part + quant_str(self.kind) + (
            if self.greedy is No {
                seq!['?']
            } else {
                Seq::<char>::empty()
            }));
        }
        Ok(())
    }
}

impl Grapheme {
    /// Appends `\X`, or fails with `Unsupported` for JavaScript, which
    /// has no grapheme syntax.
    pub fn comp(&self, options: CompileOptions, state: &mut CompileState, buf: &mut String) -> (r:
        Result<(), CompileError>)
        ensures
            r is Ok <==> options.flavor != RegexFlavor::JavaScript,
            r is Ok ==> final (buf)@ == old(buf)@ + seq!['\\', 'X'],
            r is Err ==> r->Err_0 == (CompileError {
                kind: CompileErrorKind::Unsupported(Feature::Grapheme, options.flavor),
                span: self.span,
            }),
            r is Err ==> final (buf)@ == old(buf)@,
            *final (state) == *old(state),
    {
        if let RegexFlavor::JavaScript = options.flavor {
            return Err(
                CompileErrorKind::Unsupported(Feature::Grapheme, options.flavor).at(self.span),
            );
        }
        push_char(buf, '\\');
        push_char(buf, 'X');
        proof {
            assert(buf@ =~= old(buf)@ + seq!['\\', 'X']);
        }
        Ok(())
    }
}

/// When one rule of a sequence is unsupported, the whole sequence is.
proof fn seq_ok_means_all(rules: Seq<Rulex>, flavor: RegexFlavor)
    ensures
        seq_ok(rules, flavor) <==> (forall|i: int|
            0 <= i < rules.len() ==> regex_ok(#[trigger] rules[i], flavor)),
    decreases rules.len(),
{
    if rules.len() > 0 {
        seq_ok_means_all(rules.drop_last(), flavor);
        assert(forall|i: int|
            0 <= i < rules.len() - 1 ==> rules.drop_last()[i] == #[trigger] rules[i]);
    }
}

} // verus!
