use vstd::prelude::*;
use vstd::string::*;

verus! {

// A license template is free text with an embedded placeholder syntax: the
// token `{{year}}` stands for a copyright year or an inclusive year range
// (`2019-2023`) rather than for literal text.  Compilation turns the template
// into one pattern string: literal characters are escaped so the pattern
// engine takes them verbatim, and each `{{year}}` token is replaced by the
// year sub-pattern.  The pattern is matched anywhere in a candidate text,
// not anchored to its start.

/// Characters that the pattern language treats as syntax; each one occurring
/// literally in a template must be escaped with a backslash.
pub open spec fn is_meta(c: char) -> bool {
    ||| c == '\\'
    ||| c == '.'
    ||| c == '+'
    ||| c == '*'
    ||| c == '?'
    ||| c == '('
    ||| c == ')'
    ||| c == '|'
    ||| c == '['
    ||| c == ']'
    ||| c == '{'
    ||| c == '}'
    ||| c == '^'
    ||| c == '$'
    ||| c == '#'
    ||| c == '&'
    ||| c == '-'
    ||| c == '~'
}

/// The pattern fragment for one literal character: the character itself,
/// preceded by a backslash when the pattern language would read it as syntax.
pub open spec fn escape_char(c: char) -> Seq<char> {
    if is_meta(c) {
        seq!['\\', c]
    } else {
        seq![c]
    }
}

/// The pattern fragment for a literal text: every character escaped, in order.
pub open spec fn escaped(s: Seq<char>) -> Seq<char>
    decreases s.len(),
{
    if s.len() == 0 {
        Seq::empty()
    } else {
        escape_char(s[0]) + escaped(s.drop_first())
    }
}

/// The placeholder token `{{year}}` starts at position `i` of the template.
pub open spec fn year_token_at(t: Seq<char>, i: int) -> bool {
    &&& 0 <= i
    &&& i + 8 <= t.len()
    &&& t[i] == '{'
    &&& t[i + 1] == '{'
    &&& t[i + 2] == 'y'
    &&& t[i + 3] == 'e'
    &&& t[i + 4] == 'a'
    &&& t[i + 5] == 'r'
    &&& t[i + 6] == '}'
    &&& t[i + 7] == '}'
}

/// The sub-pattern substituted for a `{{year}}` token: a four-digit year,
/// optionally extended to an inclusive range of two four-digit years.
pub open spec fn year_sub_pattern() -> Seq<char> {
    seq![
        '[', '0', '-', '9', ']', '{', '4', '}', '(', '-', '[', '0', '-', '9', ']', '{', '4', '}',
        ')', '?',
    ]
}

/// The pattern text a template compiles to: a single left-to-right scan that
/// replaces each `{{year}}` token by the year sub-pattern and escapes every
/// other character, concatenating the fragments in order.
pub open spec fn pattern_of(t: Seq<char>) -> Seq<char>
    decreases t.len(),
{
    if year_token_at(t, 0) {
        year_sub_pattern() + pattern_of(t.skip(8))
    } else if t.len() == 0 {
        Seq::empty()
    } else {
        escape_char(t[0]) + pattern_of(t.skip(1))
    }
}

/// Strips the escaping from a pattern fragment: drops the backslash that
/// `escape_char` puts before a syntax character, keeping the character.
pub open spec fn unescaped(p: Seq<char>) -> Seq<char>
    decreases p.len(),
{
    if p.len() == 0 {
        Seq::empty()
    } else if p[0] == '\\' && p.len() >= 2 {
        seq![p[1]] + unescaped(p.skip(2))
    } else {
        seq![p[0]] + unescaped(p.skip(1))
    }
}

/// Escaping loses nothing: stripping the escapes from an escaped literal
/// gives the literal back.
pub proof fn lemma_escape_round_trip(s: Seq<char>)
    ensures
        unescaped(escaped(s)) == s,
    decreases s.len(),
{
    if s.len() == 0 {
    } else {
        lemma_escape_round_trip(s.drop_first());
        let rest = escaped(s.drop_first());
        if is_meta(s[0]) {
            assert(escaped(s) == seq!['\\', s[0]] + rest);
            assert(escaped(s)[0] == '\\');
            assert(escaped(s)[1] == s[0]);
            assert(escaped(s).skip(2) =~= rest);
        } else {
            assert(escaped(s) == seq![s[0]] + rest);
            assert(escaped(s)[0] == s[0]);
            assert(s[0] != '\\');
            assert(escaped(s).skip(1) =~= rest);
        }
        assert(unescaped(escaped(s)) =~= s);
    }
}

/// Escaping is injective: two literal texts with the same escaped form are
/// the same text, so altering a literal always alters the pattern it
/// compiles to.
pub proof fn lemma_escaped_injective(a: Seq<char>, b: Seq<char>)
    requires
        escaped(a) == escaped(b),
    ensures
        a == b,
{
    lemma_escape_round_trip(a);
    lemma_escape_round_trip(b);
}

/// A `{{year}}` token stands at position `d + i` of `t` exactly when it
/// stands at position `i` of the suffix of `t` that begins at `d`.
proof fn lemma_token_shift_gen(t: Seq<char>, d: int, i: int)
    requires
        0 <= d <= t.len(),
        0 <= i,
    ensures
        year_token_at(t.skip(d), i) == year_token_at(t, d + i),
{
    if i + 8 <= t.len() - d {
        assert(t.skip(d)[i] == t[d + i]);
        assert(t.skip(d)[i + 1] == t[d + i + 1]);
        assert(t.skip(d)[i + 2] == t[d + i + 2]);
        assert(t.skip(d)[i + 3] == t[d + i + 3]);
        assert(t.skip(d)[i + 4] == t[d + i + 4]);
        assert(t.skip(d)[i + 5] == t[d + i + 5]);
        assert(t.skip(d)[i + 6] == t[d + i + 6]);
        assert(t.skip(d)[i + 7] == t[d + i + 7]);
    }
}

/// A template without placeholder tokens compiles to exactly its escaped
/// text: every one of its characters is matched verbatim.
pub proof fn lemma_literal_template(t: Seq<char>)
    requires
        forall|i: int| !year_token_at(t, i),
    ensures
        pattern_of(t) == escaped(t),
    decreases t.len(),
{
    if t.len() == 0 {
    } else {
        assert(!year_token_at(t, 0));
        assert forall|i: int| !year_token_at(t.skip(1), i) by {
            if 0 <= i && i + 8 <= t.skip(1).len() {
                lemma_token_shift_gen(t, 1, i);
                assert(!year_token_at(t, 1 + i));
            }
        }
        lemma_literal_template(t.skip(1));
        assert(t.skip(1) =~= t.drop_first());
    }
}

/// A non-empty template compiles to a non-empty pattern: some literal
/// character or some year sub-pattern must occur for the content to match.
pub proof fn lemma_nonempty_template_nonempty_pattern(t: Seq<char>)
    requires
        t.len() > 0,
    ensures
        pattern_of(t).len() > 0,
{
    if year_token_at(t, 0) {
        assert(year_sub_pattern().len() == 20);
    } else {
        assert(escape_char(t[0]).len() >= 1);
    }
}

/// Whether the pattern language treats `c` as syntax.
pub fn is_meta_char(c: char) -> (b: bool)
    ensures
        b == is_meta(c),
{
    c == '\\' || c == '.' || c == '+' || c == '*' || c == '?' || c == '(' || c == ')' || c == '|'
        || c == '[' || c == ']' || c == '{' || c == '}' || c == '^' || c == '$' || c == '#'
        || c == '&' || c == '-' || c == '~'
}

/// The characters of `s`, in order, as a vector.
pub fn to_char_vec(s: &str) -> (v: Vec<char>)
    ensures
        v@ == s@,
{
    let n = s.unicode_len();
    let mut v: Vec<char> = Vec::new();
    let mut i: usize = 0;
    while i < n
        invariant
            n == s@.len(),
            i <= n,
            v@ == s@.subrange(0, i as int),
        decreases n - i,
    {
        v.push(s.get_char(i));
        i = i + 1;
        proof {
            assert(v@ =~= s@.subrange(0, i as int));
        }
    }
    proof {
        assert(s@.subrange(0, n as int) =~= s@);
    }
    v
}

/// Whether the `{{year}}` token starts at position `i` of `t`.
fn year_token_at_exec(t: &Vec<char>, i: usize) -> (b: bool)
    requires
        i <= t@.len(),
    ensures
        b == year_token_at(t@, i as int),
{
    if t.len() - i < 8 {
        return false;
    }
    t[i] == '{' && t[i + 1] == '{' && t[i + 2] == 'y' && t[i + 3] == 'e' && t[i + 4] == 'a' && t[i
        + 5] == 'r' && t[i + 6] == '}' && t[i + 7] == '}'
}

/// Appends the year sub-pattern to `out`.
fn push_year_sub_pattern(out: &mut Vec<char>)
    ensures
        final(out)@ == old(out)@ + year_sub_pattern(),
{
    out.push('[');
    out.push('0');
    out.push('-');
    out.push('9');
    out.push(']');
    out.push('{');
    out.push('4');
    out.push('}');
    out.push('(');
    out.push('-');
    out.push('[');
    out.push('0');
    out.push('-');
    out.push('9');
    out.push(']');
    out.push('{');
    out.push('4');
    out.push('}');
    out.push(')');
    out.push('?');
    proof {
        assert(out@ =~= old(out)@ + year_sub_pattern());
    }
}

/// Appends the pattern fragment for the literal character `c` to `out`.
fn push_escaped_char(out: &mut Vec<char>, c: char)
    ensures
        final(out)@ == old(out)@ + escape_char(c),
{
    if is_meta_char(c) {
        out.push('\\');
        out.push(c);
    } else {
        out.push(c);
    }
    proof {
        assert(out@ =~= old(out)@ + escape_char(c));
    }
}

/// Escapes a literal text so the pattern engine takes it verbatim: every
/// syntax character is preceded by a backslash.
pub fn escape_literal(text: &Vec<char>) -> (out: Vec<char>)
    ensures
        out@ == escaped(text@),
{
    let mut out: Vec<char> = Vec::new();
    let mut i: usize = 0;
    proof {
        assert(text@.skip(0) =~= text@);
    }
    while i < text.len()
        invariant
            i <= text@.len(),
            escaped(text@) == out@ + escaped(text@.skip(i as int)),
        decreases text@.len() - i,
    {
        let c = text[i];
        proof {
            let suffix = text@.skip(i as int);
            assert(suffix[0] == c);
            assert(suffix.drop_first() =~= text@.skip(i + 1));
            assert(escaped(suffix) == escape_char(c) + escaped(text@.skip(i + 1)));
        }
        push_escaped_char(&mut out, c);
        i = i + 1;
    }
    proof {
        assert(text@.skip(text@.len() as int) =~= Seq::<char>::empty());
        assert(out@ =~= escaped(text@));
    }
    out
}

/// The kind of a placeholder: which semantic rule replaces it when the
/// template is compiled.  The one kind the template format defines matches
/// a four-digit year or a hyphen-separated range of two four-digit years.
#[derive(Clone, Copy, Debug, PartialEq, Eq, Structural)]
pub enum PlaceholderKind {
    Year,
}

/// One piece of a scanned template, in template order: literal text to be
/// matched verbatim, or a placeholder to be matched by its kind's
/// sub-pattern.
pub enum Segment {
    Literal(Vec<char>),
    Placeholder(PlaceholderKind),
}

/// The template text of the `{{year}}` placeholder token.
pub open spec fn year_token() -> Seq<char> {
    seq!['{', '{', 'y', 'e', 'a', 'r', '}', '}']
}

impl Segment {
    /// The template text this segment stands for.
    pub open spec fn source(&self) -> Seq<char> {
        match self {
            Segment::Literal(v) => v@,
            Segment::Placeholder(PlaceholderKind::Year) => year_token(),
        }
    }

    /// The pattern fragment this segment contributes.
    pub open spec fn fragment(&self) -> Seq<char> {
        match self {
            Segment::Literal(v) => escaped(v@),
            Segment::Placeholder(PlaceholderKind::Year) => year_sub_pattern(),
        }
    }
}

/// The template text a segment sequence stands for, in order.
pub open spec fn sources_of(segs: Seq<Segment>) -> Seq<char>
    decreases segs.len(),
{
    if segs.len() == 0 {
        Seq::empty()
    } else {
        segs[0].source() + sources_of(segs.drop_first())
    }
}

/// The pattern text a segment sequence folds to, in order.
pub open spec fn fragments_of(segs: Seq<Segment>) -> Seq<char>
    decreases segs.len(),
{
    if segs.len() == 0 {
        Seq::empty()
    } else {
        segs[0].fragment() + fragments_of(segs.drop_first())
    }
}

proof fn lemma_sources_snoc(segs: Seq<Segment>, x: Segment)
    ensures
        sources_of(segs.push(x)) == sources_of(segs) + x.source(),
    decreases segs.len(),
{
    if segs.len() == 0 {
        assert(segs.push(x).drop_first() =~= segs);
        assert(sources_of(segs.push(x)) =~= sources_of(segs) + x.source());
    } else {
        assert(segs.push(x)[0] == segs[0]);
        assert(segs.push(x).drop_first() =~= segs.drop_first().push(x));
        lemma_sources_snoc(segs.drop_first(), x);
        assert(sources_of(segs.push(x)) =~= sources_of(segs) + x.source());
    }
}

proof fn lemma_fragments_snoc(segs: Seq<Segment>, x: Segment)
    ensures
        fragments_of(segs.push(x)) == fragments_of(segs) + x.fragment(),
    decreases segs.len(),
{
    if segs.len() == 0 {
        assert(segs.push(x).drop_first() =~= segs);
        assert(fragments_of(segs.push(x)) =~= fragments_of(segs) + x.fragment());
    } else {
        assert(segs.push(x)[0] == segs[0]);
        assert(segs.push(x).drop_first() =~= segs.drop_first().push(x));
        lemma_fragments_snoc(segs.drop_first(), x);
        assert(fragments_of(segs.push(x)) =~= fragments_of(segs) + x.fragment());
    }
}

proof fn lemma_escaped_snoc(s: Seq<char>, c: char)
    ensures
        escaped(s.push(c)) == escaped(s) + escape_char(c),
    decreases s.len(),
{
    if s.len() == 0 {
        assert(s.push(c).drop_first() =~= s);
        assert(escaped(s.push(c)) =~= escaped(s) + escape_char(c));
    } else {
        assert(s.push(c)[0] == s[0]);
        assert(s.push(c).drop_first() =~= s.drop_first().push(c));
        lemma_escaped_snoc(s.drop_first(), c);
        assert(escaped(s.push(c)) =~= escaped(s) + escape_char(c));
    }
}

/// Splits a template into its ordered segments: alternating literal text
/// (possibly empty at the start, the end, or between adjacent placeholders)
/// and one placeholder per `{{year}}` token.  The segments cover the
/// template text exactly, and folding their pattern fragments gives the
/// template's compiled pattern text.
pub fn scan_template(text: &Vec<char>) -> (segs: Vec<Segment>)
    ensures
        sources_of(segs@) == text@,
        fragments_of(segs@) == pattern_of(text@),
        segs@.len() % 2 == 1,
        forall|k: int|
            0 <= k < segs@.len() ==> (segs@[k] is Literal <==> k % 2 == 0),
{
    let mut segs: Vec<Segment> = Vec::new();
    let mut lit: Vec<char> = Vec::new();
    let mut i: usize = 0;
    proof {
        assert(text@.skip(0) =~= text@);
        assert(sources_of(segs@) + lit@ + text@.skip(0) =~= text@);
        assert(fragments_of(segs@) + escaped(lit@) + pattern_of(text@.skip(0)) =~= pattern_of(
            text@,
        ));
    }
    while i < text.len()
        invariant
            i <= text@.len(),
            sources_of(segs@) + lit@ + text@.skip(i as int) == text@,
            fragments_of(segs@) + escaped(lit@) + pattern_of(text@.skip(i as int)) == pattern_of(
                text@,
            ),
            segs@.len() % 2 == 0,
            forall|k: int|
                0 <= k < segs@.len() ==> (segs@[k] is Literal <==> k % 2 == 0),
        decreases text@.len() - i,
    {
        proof {
            lemma_token_shift_gen(text@, i as int, 0);
        }
        if year_token_at_exec(text, i) {
            proof {
                let suffix = text@.skip(i as int);
                assert(suffix.skip(8) =~= text@.skip(i + 8));
                assert(pattern_of(suffix) == year_sub_pattern() + pattern_of(text@.skip(i + 8)));
                assert(suffix =~= year_token() + text@.skip(i + 8));
                lemma_sources_snoc(segs@, Segment::Literal(lit));
                lemma_sources_snoc(
                    segs@.push(Segment::Literal(lit)),
                    Segment::Placeholder(PlaceholderKind::Year),
                );
                lemma_fragments_snoc(segs@, Segment::Literal(lit));
                lemma_fragments_snoc(
                    segs@.push(Segment::Literal(lit)),
                    Segment::Placeholder(PlaceholderKind::Year),
                );
            }
            segs.push(Segment::Literal(lit));
            segs.push(Segment::Placeholder(PlaceholderKind::Year));
            lit = Vec::new();
            i = i + 8;
            proof {
                assert(sources_of(segs@) + lit@ + text@.skip(i as int) =~= text@);
                assert(fragments_of(segs@) + escaped(lit@) + pattern_of(text@.skip(i as int))
                    =~= pattern_of(text@));
            }
        } else {
            let c = text[i];
            proof {
                let suffix = text@.skip(i as int);
                assert(suffix[0] == c);
                assert(suffix.skip(1) =~= text@.skip(i + 1));
                assert(pattern_of(suffix) == escape_char(c) + pattern_of(text@.skip(i + 1)));
                assert(suffix =~= seq![c] + text@.skip(i + 1));
                lemma_escaped_snoc(lit@, c);
            }
            lit.push(c);
            i = i + 1;
            proof {
                assert(sources_of(segs@) + lit@ + text@.skip(i as int) =~= text@);
                assert(fragments_of(segs@) + escaped(lit@) + pattern_of(text@.skip(i as int))
                    =~= pattern_of(text@));
            }
        }
    }
    proof {
        assert(text@.skip(text@.len() as int) =~= Seq::<char>::empty());
        lemma_sources_snoc(segs@, Segment::Literal(lit));
        lemma_fragments_snoc(segs@, Segment::Literal(lit));
    }
    segs.push(Segment::Literal(lit));
    proof {
        assert(sources_of(segs@) =~= text@);
        assert(fragments_of(segs@) =~= pattern_of(text@));
    }
    segs
}

/// Folds scanned segments into one pattern text: escapes each literal,
/// substitutes each placeholder's sub-pattern, and concatenates the
/// fragments in segment order.
pub fn assemble_pattern(segs: &Vec<Segment>) -> (p: Vec<char>)
    ensures
        p@ == fragments_of(segs@),
{
    let mut out: Vec<char> = Vec::new();
    let mut j: usize = 0;
    proof {
        assert(segs@.take(0) =~= Seq::<Segment>::empty());
        assert(out@ =~= fragments_of(segs@.take(0)));
    }
    while j < segs.len()
        invariant
            j <= segs@.len(),
            out@ == fragments_of(segs@.take(j as int)),
        decreases segs@.len() - j,
    {
        match &segs[j] {
            Segment::Literal(v) => {
                let mut e = escape_literal(v);
                out.append(&mut e);
            },
            Segment::Placeholder(PlaceholderKind::Year) => {
                push_year_sub_pattern(&mut out);
            },
        }
        j = j + 1;
        proof {
            assert(segs@.take(j as int) =~= segs@.take(j - 1).push(segs@[j - 1]));
            lemma_fragments_snoc(segs@.take(j - 1), segs@[j - 1]);
        }
    }
    proof {
        assert(segs@.take(segs@.len() as int) =~= segs@);
    }
    out
}

} // verus!
