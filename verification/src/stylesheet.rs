//! The CSS parser: a single-pass character-stream state machine that turns
//! stylesheet text into a `GlobalStyle` (stylesheet mode) or a single
//! `Declaration` (inline mode). The scan makes one decision per character,
//! tracks the brace nesting depth to tell selectors from declarations, and
//! never fails on malformed input: unknown tokens are skipped and unclosed
//! rules are silently discarded.

use vstd::prelude::*;

use crate::chars::{
    chars_of, is_name, is_name_char, spec_trim, spec_trim_end, spec_trim_start, string_of, subvec,
    trim_chars,
};
use crate::normalize::{remove_comments_and_extra_whitespace, spec_normalize};
use crate::style::{
    apply_declaration_property, spec_apply_property, spec_default_decl, DeclView, Declaration,
    ParserMode,
};

verus! {

/// An ordered collection of `(selector, Declaration)` rule pairs: one parsed
/// stylesheet. Insertion order is preserved; there is no deduplication and no
/// specificity resolution.
#[derive(Debug, PartialEq)]
pub struct GlobalStyle {
    /// Selector, declarations.
    pub rules: Vec<(String, Declaration)>,
}

impl View for GlobalStyle {
    type V = Seq<(Seq<char>, DeclView)>;

    open spec fn view(&self) -> Seq<(Seq<char>, DeclView)> {
        self.rules@.map_values(|p: (String, Declaration)| (p.0@, p.1@))
    }
}

impl Default for GlobalStyle {
    /// A stylesheet with no rules.
    fn default() -> (r: Self)
        ensures
            r@ == Seq::<(Seq<char>, DeclView)>::empty(),
    {
        let r = GlobalStyle { rules: Vec::new() };
        proof {
            assert(r@ =~= Seq::<(Seq<char>, DeclView)>::empty());
        }
        r
    }
}

impl GlobalStyle {
    /// Appends one `(selector, declaration)` rule at the end.
    pub fn add_rule(&mut self, selector: &str, decl: Declaration)
        ensures
            final(self)@ == old(self)@.push((selector@, decl@)),
    {
        let ghost dv = decl@;
        self.rules.push((selector.to_owned(), decl));
        proof {
            assert(self@ =~= old(self)@.push((selector@, dv)));
        }
    }

    /// A copy of this stylesheet.
    pub fn duplicate(&self) -> (r: GlobalStyle)
        ensures
            r@ == self@,
    {
        let mut rules: Vec<(String, Declaration)> = Vec::new();
        let mut i: usize = 0;
        while i < self.rules.len()
            invariant
                i <= self.rules@.len(),
                rules@.len() == i,
                forall|j: int|
                    0 <= j < i ==> (#[trigger] rules@[j]).0@ == self.rules@[j].0@ && rules@[j].1@
                        == self.rules@[j].1@,
            decreases self.rules@.len() - i,
        {
            let (s, d) = &self.rules[i];
            rules.push((s.clone(), d.duplicate()));
            i = i + 1;
        }
        let r = GlobalStyle { rules };
        proof {
            assert(r@ =~= self@);
        }
        r
    }
}

/// The end of the run of name characters (ASCII letters, digits, `-`, `_`)
/// that starts at `i`.
pub open spec fn name_run_end(s: Seq<char>, i: int) -> int
    decreases s.len() - i,
{
    if i < 0 || i >= s.len() || !is_name_char(s[i]) {
        i
    } else {
        name_run_end(s, i + 1)
    }
}

/// The end of the run of value characters (anything but `;` and `:`) that
/// starts at `i`.
pub open spec fn value_run_end(s: Seq<char>, i: int) -> int
    decreases s.len() - i,
{
    if i < 0 || i >= s.len() || s[i] == ';' || s[i] == ':' {
        i
    } else {
        value_run_end(s, i + 1)
    }
}

proof fn lemma_name_run_end(s: Seq<char>, i: int)
    requires
        0 <= i <= s.len(),
    ensures
        i <= name_run_end(s, i) <= s.len(),
    decreases s.len() - i,
{
    if i < s.len() && is_name_char(s[i]) {
        lemma_name_run_end(s, i + 1);
    }
}

proof fn lemma_value_run_end(s: Seq<char>, i: int)
    requires
        0 <= i <= s.len(),
    ensures
        i <= value_run_end(s, i) <= s.len(),
    decreases s.len() - i,
{
    if i < s.len() && s[i] != ';' && s[i] != ':' {
        lemma_value_run_end(s, i + 1);
    }
}

/// The full scanning state of the parser: the normalized input, the scan
/// position, the brace depth, the depth at which the pending rule opened,
/// the pending selector and property name, the declaration and the rules
/// accumulated so far.
#[verifier::ext_equal]
pub ghost struct ParserState {
    pub input: Seq<char>,
    pub pos: int,
    pub brace: int,
    pub decl_brace: Option<int>,
    pub selector: Option<Seq<char>>,
    pub attr_name: Option<Seq<char>>,
    pub decl: DeclView,
    pub mode: ParserMode,
    pub rules: Seq<(Seq<char>, DeclView)>,
}

/// The pending selector, or the empty text where none is pending.
pub open spec fn selector_of(st: ParserState) -> Seq<char> {
    match st.selector {
        Some(sel) => sel,
        None => Seq::empty(),
    }
}

/// One decision of the scan, on the character at the current position:
/// braces track depth (`}` saturating at zero and committing the pending
/// rule when it closes the recorded depth), spaces are skipped, a name at
/// depth zero becomes the pending selector, and a `;`/`:`-delimited run at
/// depth one becomes the pending property name or, if one is pending, the
/// value handed to the resolver. An empty run consumes one character, so the
/// scan always advances.
pub open spec fn spec_step(st: ParserState) -> ParserState {
    let c = st.input[st.pos];
    if c == '{' {
        ParserState { pos: st.pos + 1, brace: st.brace + 1, ..st }
    } else if c == '}' {
        let b2 = if st.brace > 0 {
            st.brace - 1
        } else {
            0
        };
        if st.decl_brace == Some(b2) {
            ParserState {
                pos: st.pos + 1,
                brace: b2,
                decl_brace: None,
                selector: None,
                rules: st.rules.push((selector_of(st), st.decl)),
                ..st
            }
        } else {
            ParserState { pos: st.pos + 1, brace: b2, ..st }
        }
    } else if c == ' ' {
        ParserState { pos: st.pos + 1, ..st }
    } else if st.brace == 0 {
        let e = name_run_end(st.input, st.pos);
        if e == st.pos {
            ParserState { pos: st.pos + 1, ..st }
        } else {
            ParserState {
                pos: e,
                selector: Some(st.input.subrange(st.pos, e)),
                decl_brace: Some(st.brace),
                ..st
            }
        }
    } else {
        let e = value_run_end(st.input, st.pos);
        if e == st.pos {
            ParserState { pos: st.pos + 1, ..st }
        } else if st.brace == 1 && st.attr_name is None {
            ParserState { pos: e, attr_name: Some(st.input.subrange(st.pos, e)), ..st }
        } else if st.brace == 1 {
            ParserState {
                pos: e,
                decl: spec_apply_property(
                    st.decl,
                    st.attr_name->0,
                    st.input.subrange(st.pos, e),
                    st.mode,
                ),
                attr_name: None,
                ..st
            }
        } else {
            ParserState { pos: e, ..st }
        }
    }
}

proof fn lemma_step_progress(st: ParserState)
    requires
        0 <= st.pos < st.input.len(),
    ensures
        spec_step(st).input == st.input,
        st.pos < spec_step(st).pos <= st.input.len(),
        st.brace <= st.pos ==> spec_step(st).brace <= spec_step(st).pos,
{
    lemma_name_run_end(st.input, st.pos);
    lemma_value_run_end(st.input, st.pos);
}

/// The scan run to the end of the input.
pub open spec fn spec_run(st: ParserState) -> ParserState
    decreases st.input.len() - st.pos,
    via spec_run_decreases
{
    if st.pos < 0 || st.pos >= st.input.len() {
        st
    } else {
        spec_run(spec_step(st))
    }
}

#[via_fn]
proof fn spec_run_decreases(st: ParserState) {
    if 0 <= st.pos && st.pos < st.input.len() {
        lemma_step_progress(st);
    }
}

proof fn lemma_step_rules_prefix(st: ParserState)
    requires
        0 <= st.pos < st.input.len(),
    ensures
        spec_step(st).rules.len() >= st.rules.len(),
        spec_step(st).rules.subrange(0, st.rules.len() as int) == st.rules,
{
    let r2 = spec_step(st).rules;
    if r2 != st.rules {
        assert(r2 == st.rules.push((selector_of(st), st.decl)));
        assert(r2.subrange(0, st.rules.len() as int) =~= st.rules);
    } else {
        assert(r2.subrange(0, st.rules.len() as int) =~= st.rules);
    }
}

/// Committed rules are only appended: the rules a parser has committed stay,
/// in order and in place, through the rest of the scan, however malformed the
/// remaining input is.
pub proof fn lemma_rules_append_only(st: ParserState)
    ensures
        spec_run(st).rules.len() >= st.rules.len(),
        spec_run(st).rules.subrange(0, st.rules.len() as int) == st.rules,
    decreases st.input.len() - st.pos,
{
    if st.pos < 0 || st.pos >= st.input.len() {
        assert(spec_run(st).rules.subrange(0, st.rules.len() as int) =~= st.rules);
    } else {
        lemma_step_progress(st);
        lemma_step_rules_prefix(st);
        let st2 = spec_step(st);
        lemma_rules_append_only(st2);
        assert(spec_run(st) == spec_run(st2));
        assert(spec_run(st2).rules.subrange(0, st.rules.len() as int) =~= st.rules) by {
            let run_rules = spec_run(st2).rules;
            assert(run_rules.subrange(0, st2.rules.len() as int) == st2.rules);
            assert forall|j: int| 0 <= j < st.rules.len() implies run_rules.subrange(
                0,
                st.rules.len() as int,
            )[j] == st.rules[j] by {
                assert(run_rules.subrange(0, st2.rules.len() as int)[j] == st2.rules[j]);
                assert(st2.rules.subrange(0, st.rules.len() as int)[j] == st.rules[j]);
            }
        }
    }
}

/// The state a fresh parser starts in: the normalized input at position
/// zero, depth zero, nothing pending, the all-unset declaration and no rules.
pub open spec fn spec_parser_init(css: Seq<char>, mode: ParserMode) -> ParserState {
    ParserState {
        input: spec_normalize(css),
        pos: 0,
        brace: 0,
        decl_brace: None,
        selector: None,
        attr_name: None,
        decl: spec_default_decl(),
        mode,
        rules: Seq::empty(),
    }
}

/// The rules that parsing a stylesheet text yields.
pub open spec fn spec_from_css(css: Seq<char>, mode: ParserMode) -> Seq<(Seq<char>, DeclView)> {
    spec_run(spec_parser_init(css, mode)).rules
}

/// The CSS parser. Uses no outside help except the `css_color` crate for
/// color parsing.
#[derive(Debug)]
pub struct CssParser {
    input: Vec<char>,
    pos: usize,
    brace_level: usize,
    decl_brace_level: Option<usize>,
    selector: Option<String>,
    attr_name: Option<String>,
    decl: Declaration,
    mode: ParserMode,
    style: GlobalStyle,
}

impl View for CssParser {
    type V = ParserState;

    closed spec fn view(&self) -> ParserState {
        ParserState {
            input: self.input@,
            pos: self.pos as int,
            brace: self.brace_level as int,
            decl_brace: match self.decl_brace_level {
                Some(b) => Some(b as int),
                None => None,
            },
            selector: match &self.selector {
                Some(s) => Some(s@),
                None => None,
            },
            attr_name: match &self.attr_name {
                Some(s) => Some(s@),
                None => None,
            },
            decl: self.decl@,
            mode: self.mode,
            rules: self.style@,
        }
    }
}

impl CssParser {
    /// A parser over the given stylesheet text, which it normalizes first.
    pub fn new(css: &str, mode: ParserMode) -> (r: CssParser)
        ensures
            r@ == spec_parser_init(css@, mode),
    {
        let input_str = remove_comments_and_extra_whitespace(css);
        let input = chars_of(input_str.as_str());
        let r = CssParser {
            input,
            pos: 0,
            brace_level: 0,
            decl_brace_level: None,
            selector: None,
            attr_name: None,
            decl: Declaration::default(),
            mode,
            style: GlobalStyle::default(),
        };
        proof {
            assert(r@ =~= spec_parser_init(css@, mode));
        }
        r
    }

    /// The whole input has been scanned.
    fn eof(&self) -> (r: bool)
        ensures
            r == (self@.pos >= self@.input.len()),
    {
        self.pos >= self.input.len()
    }

    /// Consumes the run of name characters at the current position.
    fn scan_name(&mut self) -> (t: Vec<char>)
        requires
            old(self)@.pos <= old(self)@.input.len(),
        ensures
            final(self)@ == (ParserState {
                pos: name_run_end(old(self)@.input, old(self)@.pos),
                ..old(self)@
            }),
            t@ == old(self)@.input.subrange(
                old(self)@.pos,
                name_run_end(old(self)@.input, old(self)@.pos),
            ),
    {
        let mut t: Vec<char> = Vec::new();
        while self.pos < self.input.len() && is_name(self.input[self.pos])
            invariant
                old(self)@.pos <= self.pos as int <= self@.input.len(),
                self@ == (ParserState { pos: self.pos as int, ..old(self)@ }),
                name_run_end(old(self)@.input, old(self)@.pos) == name_run_end(
                    self@.input,
                    self.pos as int,
                ),
                t@ == old(self)@.input.subrange(old(self)@.pos, self.pos as int),
            decreases self@.input.len() - self.pos,
        {
            t.push(self.input[self.pos]);
            self.pos = self.pos + 1;
            proof {
                assert(t@ =~= old(self)@.input.subrange(old(self)@.pos, self.pos as int));
            }
        }
        t
    }

    /// Consumes the run of characters up to (not including) the next `;` or
    /// `:`, so that function-call-like values such as `rgb(255,255,255)` are
    /// captured whole.
    fn scan_value(&mut self) -> (t: Vec<char>)
        requires
            old(self)@.pos <= old(self)@.input.len(),
        ensures
            final(self)@ == (ParserState {
                pos: value_run_end(old(self)@.input, old(self)@.pos),
                ..old(self)@
            }),
            t@ == old(self)@.input.subrange(
                old(self)@.pos,
                value_run_end(old(self)@.input, old(self)@.pos),
            ),
    {
        let mut t: Vec<char> = Vec::new();
        while self.pos < self.input.len() && self.input[self.pos] != ';' && self.input[self.pos]
            != ':'
            invariant
                old(self)@.pos <= self.pos as int <= self@.input.len(),
                self@ == (ParserState { pos: self.pos as int, ..old(self)@ }),
                value_run_end(old(self)@.input, old(self)@.pos) == value_run_end(
                    self@.input,
                    self.pos as int,
                ),
                t@ == old(self)@.input.subrange(old(self)@.pos, self.pos as int),
            decreases self@.input.len() - self.pos,
        {
            t.push(self.input[self.pos]);
            self.pos = self.pos + 1;
            proof {
                assert(t@ =~= old(self)@.input.subrange(old(self)@.pos, self.pos as int));
            }
        }
        t
    }

    /// Makes one decision of the scan, on the current character.
    fn advance(&mut self)
        requires
            old(self)@.pos < old(self)@.input.len(),
            old(self)@.brace <= old(self)@.pos,
        ensures
            final(self)@ == spec_step(old(self)@),
            final(self)@.brace <= final(self)@.pos,
            final(self)@.input == old(self)@.input,
            old(self)@.pos < final(self)@.pos <= final(self)@.input.len(),
    {
        proof {
            lemma_step_progress(old(self)@);
        }
        let n = self.input.len();
        assert(self.pos < n);
        let c = self.input[self.pos];
        if c == '{' {
            self.pos = self.pos + 1;
            self.brace_level = self.brace_level + 1;
        } else if c == '}' {
            self.pos = self.pos + 1;
            // a saturating decrement: malformed input with excess closing
            // braces never underflows
            self.brace_level = if self.brace_level > 0 {
                self.brace_level - 1
            } else {
                0
            };
            let commit = match self.decl_brace_level {
                Some(dbl) => dbl == self.brace_level,
                None => false,
            };
            if commit {
                let sel = match &self.selector {
                    Some(s) => s.clone(),
                    None => String::new(),
                };
                let d = self.decl.duplicate();
                self.style.add_rule(sel.as_str(), d);
                self.decl_brace_level = None;
                self.selector = None;
            }
        } else if c == ' ' {
            // whitespace: normalization already collapsed runs to one space
            self.pos = self.pos + 1;
        } else if self.brace_level == 0 {
            // at depth zero a name run is a selector
            let t = self.scan_name();
            if t.len() == 0 {
                self.pos = self.pos + 1;  // always consume something
            } else {
                self.selector = Some(string_of(&t));
                self.decl_brace_level = Some(self.brace_level);
            }
        } else {
            let t = self.scan_value();
            if t.len() == 0 {
                self.pos = self.pos + 1;  // always consume something
            } else if self.brace_level == 1 {
                if self.attr_name.is_none() {
                    self.attr_name = Some(string_of(&t));
                } else {
                    let name = match &self.attr_name {
                        Some(n) => n.clone(),
                        None => String::new(),
                    };
                    let value = string_of(&t);
                    apply_declaration_property(
                        &mut self.decl,
                        name.as_str(),
                        value.as_str(),
                        self.mode,
                    );
                    self.attr_name = None;
                }
            }
        }
        proof {
            assert(self@ =~= spec_step(old(self)@));
        }
    }

    /// Scans the whole input and returns the accumulated stylesheet.
    pub fn parse(&mut self) -> (r: GlobalStyle)
        requires
            old(self)@.brace <= old(self)@.pos,
        ensures
            final(self)@ == spec_run(old(self)@),
            final(self)@.brace <= final(self)@.pos,
            r@ == spec_run(old(self)@).rules,
    {
        while !self.eof()
            invariant
                self@.brace <= self@.pos,
                spec_run(self@) == spec_run(old(self)@),
            decreases self@.input.len() - self@.pos,
        {
            self.advance();
        }
        self.style.duplicate()
    }
}


/// The semicolon-splitter's fold: every separator ends a segment, and the
/// text after the last separator is a segment too (possibly empty).
pub open spec fn split_on_from(
    s: Seq<char>,
    sep: char,
    i: int,
    cur: Seq<char>,
    acc: Seq<Seq<char>>,
) -> Seq<Seq<char>>
    decreases s.len() - i,
{
    if i < 0 || i >= s.len() {
        acc.push(cur)
    } else if s[i] == sep {
        split_on_from(s, sep, i + 1, Seq::empty(), acc.push(cur))
    } else {
        split_on_from(s, sep, i + 1, cur.push(s[i]), acc)
    }
}

/// The segments of `s` between occurrences of `sep`, kept even when empty.
pub open spec fn spec_split_on(s: Seq<char>, sep: char) -> Seq<Seq<char>> {
    split_on_from(s, sep, 0, Seq::empty(), Seq::empty())
}

/// The position of the first `:` at or after `i`, or the length when there
/// is none.
pub open spec fn colon_from(seg: Seq<char>, i: int) -> int
    decreases seg.len() - i,
{
    if i < 0 || i >= seg.len() {
        seg.len() as int
    } else if seg[i] == ':' {
        i
    } else {
        colon_from(seg, i + 1)
    }
}

/// The property name of one inline `key: value` segment: the trimmed text
/// before the first colon.
pub open spec fn spec_inline_key(seg: Seq<char>) -> Seq<char> {
    spec_trim(seg.take(colon_from(seg, 0)))
}

/// The property value of one inline `key: value` segment: the trimmed text
/// after the first colon, or the empty text when there is no colon.
pub open spec fn spec_inline_value(seg: Seq<char>) -> Seq<char> {
    let cp = colon_from(seg, 0);
    if cp < seg.len() {
        spec_trim(seg.skip(cp + 1))
    } else {
        Seq::empty()
    }
}

/// The inline resolver's fold over the segments: a segment whose key and
/// value are both empty is skipped, every other one is handed to the
/// property resolver; duplicate properties are later-wins by overwrite
/// order.
pub open spec fn inline_fold(d: DeclView, segs: Seq<Seq<char>>, i: int) -> DeclView
    decreases segs.len() - i,
{
    if i < 0 || i >= segs.len() {
        d
    } else {
        let k = spec_inline_key(segs[i]);
        let v = spec_inline_value(segs[i]);
        let d2 = if k.len() == 0 && v.len() == 0 {
            d
        } else {
            spec_apply_property(d, k, v, ParserMode::Normal)
        };
        inline_fold(d2, segs, i + 1)
    }
}

/// The declaration an inline style text (`key: value; key: value; ...`, no
/// braces) denotes.
pub open spec fn spec_parse_inline(s: Seq<char>) -> DeclView {
    inline_fold(spec_default_decl(), spec_split_on(s, ';'), 0)
}

/// Splits `v` on the separator into segments, empty ones kept.
fn split_on_chars(v: &Vec<char>, sep: char) -> (r: Vec<Vec<char>>)
    ensures
        r.deep_view() == spec_split_on(v@, sep),
{
    let mut acc: Vec<Vec<char>> = Vec::new();
    let mut cur: Vec<char> = Vec::new();
    let mut i: usize = 0;
    proof {
        assert(acc.deep_view() =~~= Seq::<Seq<char>>::empty());
    }
    while i < v.len()
        invariant
            i <= v@.len(),
            split_on_from(v@, sep, i as int, cur@, acc.deep_view()) == spec_split_on(v@, sep),
        decreases v@.len() - i,
    {
        let c = v[i];
        if c == sep {
            let ghost prev = acc.deep_view();
            let ghost curv = cur@;
            acc.push(cur);
            proof {
                assert(acc.deep_view() =~~= prev.push(curv));
            }
            cur = Vec::new();
        } else {
            cur.push(c);
        }
        i = i + 1;
    }
    let ghost prev = acc.deep_view();
    let ghost curv = cur@;
    acc.push(cur);
    proof {
        assert(acc.deep_view() =~~= prev.push(curv));
    }
    acc
}

/// The index of the first colon of `seg`, or its length when there is none.
fn find_colon(seg: &Vec<char>) -> (cp: usize)
    ensures
        cp as int == colon_from(seg@, 0),
        cp <= seg@.len(),
{
    let mut i: usize = 0;
    while i < seg.len()
        invariant
            i <= seg@.len(),
            colon_from(seg@, 0) == colon_from(seg@, i as int),
        decreases seg@.len() - i,
    {
        if seg[i] == ':' {
            return i;
        }
        i = i + 1;
    }
    i
}

impl CssParser {
    /// Parses an inline style string (`key: value; key: value; ...`) into a
    /// declaration. Each segment between semicolons is split at its first
    /// colon into a trimmed key and value; segments with both empty are
    /// skipped. The same resolver as stylesheet parsing is used, so the two
    /// agree on every property's meaning.
    pub fn parse_inline(inline: &str) -> (r: Declaration)
        ensures
            r@ == spec_parse_inline(inline@),
    {
        let cs = chars_of(inline);
        let segs = split_on_chars(&cs, ';');
        let ghost sdv = segs.deep_view();
        let mut decl = Declaration::default();
        let mut i: usize = 0;
        proof {
            assert(sdv.len() == segs@.len());
        }
        while i < segs.len()
            invariant
                i <= segs@.len(),
                sdv == segs.deep_view(),
                sdv.len() == segs@.len(),
                inline_fold(decl@, sdv, i as int) == spec_parse_inline(inline@),
            decreases segs@.len() - i,
        {
            let seg = &segs[i];
            proof {
                assert(sdv[i as int] =~= seg@);
            }
            let cp = find_colon(seg);
            let key_raw = subvec(seg, 0, cp);
            let key = trim_chars(&key_raw);
            proof {
                assert(key_raw@ =~= seg@.take(cp as int));
            }
            let value_raw = if cp < seg.len() {
                subvec(seg, cp + 1, seg.len())
            } else {
                Vec::new()
            };
            let value = trim_chars(&value_raw);
            proof {
                if (cp as int) < seg@.len() {
                    assert(value_raw@ =~= seg@.skip(cp as int + 1));
                } else {
                    assert(value_raw@ =~= Seq::<char>::empty());
                    assert(spec_trim_end(spec_trim_start(value_raw@)) =~= Seq::<char>::empty());
                }
                assert(key@ == spec_inline_key(sdv[i as int]));
                assert(value@ == spec_inline_value(sdv[i as int]));
            }
            if !(key.len() == 0 && value.len() == 0) {
                let ks = string_of(&key);
                let vs = string_of(&value);
                apply_declaration_property(&mut decl, ks.as_str(), vs.as_str(), ParserMode::Normal);
            }
            i = i + 1;
        }
        decl
    }
}

/// The built-in default stylesheet, parsed once in default-stylesheet mode;
/// its theme keywords name a small themable palette that the resolver
/// substitutes with literal color keywords.
pub const DEFAULT_CSS: &'static str = "body { background-color: DfPageBackgroundColor; color: DfTextColor; font-family: serif; margin: 8px; } a { color: DfLinkColor; } mark { background-color: DfMarkBackgroundColor; color: DfMarkTextColor; } button { background-color: DfButtonBackgroundColor; color: DfButtonTextColor; } input { color: DfInputPlaceholderTextColor; }";

impl GlobalStyle {
    /// Parses a stylesheet text into its rules.
    pub fn from_css(css: &str, mode: ParserMode) -> (r: GlobalStyle)
        ensures
            r@ == spec_from_css(css@, mode),
    {
        let mut parser = CssParser::new(css, mode);
        parser.parse()
    }

    /// The engine's built-in default stylesheet, parsed in
    /// default-stylesheet mode.
    pub fn default_css() -> (r: GlobalStyle)
        ensures
            r@ == spec_from_css(DEFAULT_CSS@, ParserMode::DefaultCss),
    {
        GlobalStyle::from_css(DEFAULT_CSS, ParserMode::DefaultCss)
    }
}

impl Declaration {
    /// Parses an inline style string into a declaration.
    pub fn from_inline(inline: &str) -> (r: Self)
        ensures
            r@ == spec_parse_inline(inline@),
    {
        CssParser::parse_inline(inline)
    }
}

} // verus!

