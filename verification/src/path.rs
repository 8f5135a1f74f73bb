//! Route-path analysis: path templates broken into validated segments.
//!
//! A well-formed path starts with `/`; every `/`-delimited, non-empty
//! segment is either a purely alphabetic literal or a single
//! `{alphabeticName}` parameter. Empty segments (as left by a trailing
//! slash) are ignored. Digits and punctuation in segment names are rejected
//! by design: this is a documented restriction, not an oversight.

use vstd::prelude::*;

verus! {

use crate::error::Error;
use crate::text::concat_map;
use crate::text::lemma_concat_map_push;

/// The mathematical shape of one segment: its kind and its characters.
pub enum SegView {
    Literal(Seq<char>),
    Parameter(Seq<char>),
}

/// One `/`-delimited piece of a path template.
#[derive(Debug, Clone, PartialEq)]
pub enum PathSegment {
    /// A fixed piece of the path.
    Literal(String),
    /// A `{name}` placeholder.
    Parameter(String),
}

impl View for PathSegment {
    type V = SegView;

    open spec fn view(&self) -> SegView {
        match self {
            PathSegment::Literal(s) => SegView::Literal(s@),
            PathSegment::Parameter(s) => SegView::Parameter(s@),
        }
    }
}

/// ASCII letters are the only characters allowed in segment names.
pub open spec fn is_alpha(c: char) -> bool {
    (97 <= c as u32 && c as u32 <= 122) || (65 <= c as u32 && c as u32 <= 90)
}

/// A non-empty run of ASCII letters.
pub open spec fn is_alpha_word(s: Seq<char>) -> bool {
    s.len() > 0 && forall|i: int| 0 <= i < s.len() ==> is_alpha(#[trigger] s[i])
}

/// A segment is well formed when its name is a non-empty alphabetic word.
pub open spec fn seg_wf(seg: SegView) -> bool {
    match seg {
        SegView::Literal(l) => is_alpha_word(l),
        SegView::Parameter(p) => is_alpha_word(p),
    }
}

/// Every segment of the sequence is well formed.
pub open spec fn path_wf(segs: Seq<SegView>) -> bool {
    forall|i: int| 0 <= i < segs.len() ==> seg_wf(#[trigger] segs[i])
}

/// The text of a segment as it stands in a template, without the leading
/// slash.
pub open spec fn seg_text(seg: SegView) -> Seq<char> {
    match seg {
        SegView::Literal(l) => l,
        SegView::Parameter(p) => seq!['{'] + p + seq!['}'],
    }
}

/// What one non-empty segment's text means: an alphabetic literal, a
/// braced alphabetic parameter, or nothing.
pub open spec fn classify_seg(t: Seq<char>) -> Option<SegView> {
    if is_alpha_word(t) {
        Some(SegView::Literal(t))
    } else if t.len() >= 2 && t[0] == '{' && t[t.len() - 1] == '}' && is_alpha_word(
        t.subrange(1, t.len() - 1),
    ) {
        Some(SegView::Parameter(t.subrange(1, t.len() - 1)))
    } else {
        None
    }
}

/// The index of the first `/` in `s`, or `s.len()` if there is none.
pub open spec fn seg_end(s: Seq<char>) -> int
    decreases s.len(),
{
    if s.len() == 0 {
        0
    } else if s[0] == '/' {
        0
    } else {
        1 + seg_end(s.drop_first())
    }
}

/// Any index with the first-slash properties is `seg_end`.
pub proof fn lemma_seg_end_unique(s: Seq<char>, e: int)
    requires
        0 <= e <= s.len(),
        forall|k: int| 0 <= k < e ==> s[k] != '/',
        e < s.len() ==> s[e] == '/',
    ensures
        seg_end(s) == e,
    decreases s.len(),
{
    if s.len() == 0 {
    } else if s[0] == '/' {
        assert(e == 0);
    } else {
        assert(e >= 1) by {
            assert(0 < s.len() ==> s[0] == '/' || e != 0);
        }
        assert forall|k: int| 0 <= k < e - 1 implies s.drop_first()[k] != '/' by {
            assert(s.drop_first()[k] == s[k + 1]);
        }
        if e - 1 < s.drop_first().len() {
            assert(s.drop_first()[e - 1] == s[e]);
        }
        lemma_seg_end_unique(s.drop_first(), e - 1);
    }
}

/// Parse the remainder of a path after a `/`: split at the next slash,
/// classify the piece (ignoring empty pieces), and continue.
pub open spec fn parse_rest(s: Seq<char>) -> Option<Seq<SegView>>
    decreases s.len(),
{
    let e = seg_end(s);
    if !(0 <= e && e < s.len()) {
        let t = s.take(e);
        if t.len() == 0 {
            Some(Seq::empty())
        } else {
            match classify_seg(t) {
                Some(seg) => Some(seq![seg]),
                None => None,
            }
        }
    } else {
        let t = s.take(e);
        match parse_rest(s.skip(e + 1)) {
            Some(rest) => {
                if t.len() == 0 {
                    Some(rest)
                } else {
                    match classify_seg(t) {
                        Some(seg) => Some(seq![seg] + rest),
                        None => None,
                    }
                }
            },
            None => None,
        }
    }
}

/// What `RoutePath::analyse` means: a leading slash, then the segment
/// grammar on every slash-delimited piece.
pub open spec fn spec_analyse(p: Seq<char>) -> Option<Seq<SegView>> {
    if p.len() == 0 || p[0] != '/' {
        None
    } else {
        parse_rest(p.skip(1))
    }
}

/// An analysed path: the ordered segments of a template.
#[derive(Debug, Clone, PartialEq)]
pub struct RoutePath {
    pub segments: Vec<PathSegment>,
}

impl View for RoutePath {
    type V = Seq<SegView>;

    open spec fn view(&self) -> Seq<SegView> {
        self.segments@.map_values(|seg: PathSegment| seg@)
    }
}

/// `r == is_alpha(c)`.
fn is_alpha_char(c: char) -> (r: bool)
    ensures
        r == is_alpha(c),
{
    let u = c as u32;
    (97 <= u && u <= 122) || (65 <= u && u <= 90)
}

/// Whether every character of `t` in `[from, to)` is an ASCII letter.
fn alpha_range(t: &str, from: usize, to: usize) -> (r: bool)
    requires
        from <= to <= t@.len(),
    ensures
        r == forall|k: int| from <= k < to ==> is_alpha(#[trigger] t@[k]),
{
    let mut i = from;
    while i < to
        invariant
            from <= i <= to <= t@.len(),
            forall|k: int| from <= k < i ==> is_alpha(#[trigger] t@[k]),
        decreases to - i,
    {
        if !is_alpha_char(t.get_char(i)) {
            assert(!is_alpha(t@[i as int]));
            return false;
        }
        i = i + 1;
    }
    true
}

/// The first index at or after `start` holding `/`, or the end.
fn scan_end(path: &str, start: usize, n: usize) -> (e: usize)
    requires
        n == path@.len(),
        start <= n,
    ensures
        start <= e <= n,
        forall|k: int| start <= k < e ==> path@[k] != '/',
        e < n ==> path@[e as int] == '/',
{
    let mut j = start;
    while j < n
        invariant
            start <= j <= n,
            n == path@.len(),
            forall|k: int| start <= k < j ==> path@[k] != '/',
        decreases n - j,
    {
        if path.get_char(j) == '/' {
            return j;
        }
        j = j + 1;
    }
    j
}

/// Classify one non-empty segment's text.
fn classify(t: &str) -> (r: Option<PathSegment>)
    ensures
        r matches Some(seg) ==> classify_seg(t@) == Some(seg@) && seg_wf(seg@),
        r is None ==> classify_seg(t@) is None,
{
    let n = t.unicode_len();
    if n > 0 && alpha_range(t, 0, n) {
        assert(is_alpha_word(t@));
        return Some(PathSegment::Literal(String::from_str(t)));
    }
    if n >= 3 && t.get_char(0) == '{' && t.get_char(n - 1) == '}' && alpha_range(t, 1, n - 1) {
        let inner = t.substring_char(1, n - 1);
        assert(inner@ =~= t@.subrange(1, t@.len() - 1));
        assert(is_alpha_word(inner@)) by {
            assert(forall|k: int|
                0 <= k < inner@.len() ==> #[trigger] inner@[k] == t@[k + 1] && is_alpha(t@[k + 1]));
        }
        return Some(PathSegment::Parameter(String::from_str(inner)));
    }
    assert(classify_seg(t@) is None) by {
        assert(!is_alpha_word(t@));
        if t@.len() >= 2 && t@[0] == '{' && t@[t@.len() - 1] == '}' {
            let inner = t@.subrange(1, t@.len() - 1);
            if n == 2 {
                assert(inner.len() == 0);
            } else {
                assert(!(forall|k: int| 1 <= k < n - 1 ==> is_alpha(#[trigger] t@[k])));
                let k = choose|k: int| 1 <= k < n - 1 && !is_alpha(#[trigger] t@[k]);
                assert(inner[k - 1] == t@[k]);
                assert(!is_alpha_word(inner));
            }
        }
    }
    None
}

/// Parse the remainder of `path` from `start` (a position just after a
/// slash) into segments.
fn analyse_rest(path: &str, start: usize, n: usize) -> (r: Result<Vec<PathSegment>, Error>)
    requires
        n == path@.len(),
        start <= n,
    ensures
        r matches Ok(v) ==> parse_rest(path@.skip(start as int)) == Some(
            v@.map_values(|seg: PathSegment| seg@),
        ) && path_wf(v@.map_values(|seg: PathSegment| seg@)),
        r is Err <==> parse_rest(path@.skip(start as int)) is None,
        r matches Err(e) ==> e matches Error::MalformedPath(m) && m@ == path@,
    decreases n - start,
{
    let ghost s = path@.skip(start as int);
    let e = scan_end(path, start, n);
    proof {
        assert forall|k: int| 0 <= k < e - start implies s[k] != '/' by {
            assert(s[k] == path@[start + k]);
        }
        if e < n {
            assert(s[e - start] == path@[e as int]);
        }
        lemma_seg_end_unique(s, e - start);
    }
    if e == n {
        if e == start {
            let v: Vec<PathSegment> = Vec::new();
            proof {
                assert(s.take(0).len() == 0);
                assert(v@.map_values(|seg: PathSegment| seg@) =~= Seq::<SegView>::empty());
            }
            return Ok(v);
        }
        let t = path.substring_char(start, e);
        proof {
            assert(t@ =~= s.take((e - start) as int));
        }
        match classify(t) {
            Some(seg) => {
                let mut v: Vec<PathSegment> = Vec::new();
                v.push(seg);
                proof {
                    assert(v@.map_values(|g: PathSegment| g@) =~= seq![seg@]);
                }
                Ok(v)
            },
            None => Err(Error::MalformedPath(String::from_str(path))),
        }
    } else {
        proof {
            assert(path@.skip((e + 1) as int) =~= s.skip((e - start + 1) as int));
        }
        match analyse_rest(path, e + 1, n) {
            Ok(mut rest) => {
                if e == start {
                    Ok(rest)
                } else {
                    let t = path.substring_char(start, e);
                    proof {
                        assert(t@ =~= s.take((e - start) as int));
                    }
                    match classify(t) {
                        Some(seg) => {
                            let ghost old_rest = rest@;
                            rest.insert(0, seg);
                            proof {
                                assert(rest@.map_values(|g: PathSegment| g@) =~= seq![seg@]
                                    + old_rest.map_values(|g: PathSegment| g@));
                            }
                            Ok(rest)
                        },
                        None => Err(Error::MalformedPath(String::from_str(path))),
                    }
                }
            },
            Err(err) => Err(err),
        }
    }
}

impl RoutePath {
    /// Check that a path is well formed and break it into its segments.
    ///
    /// Accepts exactly the strings of the segment grammar; the error
    /// carries the offending path verbatim.
    pub fn analyse(path: &str) -> (r: Result<RoutePath, Error>)
        ensures
            r matches Ok(rp) ==> spec_analyse(path@) == Some(rp@) && path_wf(rp@),
            r is Err <==> spec_analyse(path@) is None,
            r matches Err(e) ==> e matches Error::MalformedPath(m) && m@ == path@,
    {
        let n = path.unicode_len();
        if n == 0 {
            return Err(Error::MalformedPath(String::from_str(path)));
        }
        if path.get_char(0) != '/' {
            return Err(Error::MalformedPath(String::from_str(path)));
        }
        match analyse_rest(path, 1, n) {
            Ok(v) => Ok(RoutePath { segments: v }),
            Err(e) => Err(e),
        }
    }

    /// The parameter names, in path order.
    pub fn path_args(&self) -> (r: Vec<String>)
        ensures
            r.deep_view() == spec_path_args(self@),
    {
        let mut out: Vec<String> = Vec::new();
        let mut i: usize = 0;
        while i < self.segments.len()
            invariant
                i <= self.segments.len(),
                out.deep_view() == spec_path_args(self@.take(i as int)),
            decreases self.segments.len() - i,
        {
            proof {
                assert(self@.take(i + 1) =~= self@.take(i as int).push(self@[i as int]));
                lemma_path_args_push(self@.take(i as int), self@[i as int]);
            }
            match &self.segments[i] {
                PathSegment::Parameter(name) => {
                    out.push(name.clone());
                    proof {
                        assert(out.deep_view() =~= spec_path_args(self@.take(i + 1)));
                    }
                },
                PathSegment::Literal(_) => {
                    proof {
                        assert(out.deep_view() =~= spec_path_args(self@.take(i + 1)));
                    }
                },
            }
            i = i + 1;
        }
        proof {
            assert(self@.take(self.segments@.len() as int) =~= self@);
        }
        out
    }

    /// Flatten the path back to the routing template used by the
    /// dispatcher: literal segments verbatim, positional `{}` placeholders
    /// for parameters.
    pub fn build_template(&self) -> (r: String)
        ensures
            r@ == spec_build_template(self@),
    {
        proof {
            reveal_strlit("/");
            reveal_strlit("/{}");
        }
        let mut out = String::new();
        let mut i: usize = 0;
        while i < self.segments.len()
            invariant
                i <= self.segments.len(),
                out@ == spec_build_template(self@.take(i as int)),
            decreases self.segments.len() - i,
        {
            proof {
                reveal_strlit("/");
                reveal_strlit("/{}");
                assert(self@.take(i + 1) =~= self@.take(i as int).push(self@[i as int]));
                lemma_concat_map_push(
                    self@.take(i as int),
                    |seg: SegView| template_piece(seg),
                    self@[i as int],
                );
            }
            match &self.segments[i] {
                PathSegment::Literal(l) => {
                    out.append("/");
                    out.append(l.as_str());
                    assert(out@ =~= spec_build_template(self@.take(i + 1)));
                },
                PathSegment::Parameter(_) => {
                    out.append("/{}");
                    assert(out@ =~= spec_build_template(self@.take(i + 1)));
                },
            }
            i = i + 1;
        }
        proof {
            assert(self@.take(self.segments@.len() as int) =~= self@);
        }
        out
    }

    /// Flatten the path back to a template string that keeps parameter
    /// names: the exact inverse of `analyse` for well-formed, non-empty
    /// paths.
    pub fn render_template(&self) -> (r: String)
        ensures
            r@ == spec_render_template(self@),
    {
        proof {
            reveal_strlit("/");
            reveal_strlit("/{");
            reveal_strlit("}");
        }
        let mut out = String::new();
        let mut i: usize = 0;
        while i < self.segments.len()
            invariant
                i <= self.segments.len(),
                out@ == spec_render_template(self@.take(i as int)),
            decreases self.segments.len() - i,
        {
            proof {
                reveal_strlit("/");
                reveal_strlit("/{");
                reveal_strlit("}");
                assert(self@.take(i + 1) =~= self@.take(i as int).push(self@[i as int]));
                lemma_concat_map_push(
                    self@.take(i as int),
                    |seg: SegView| render_piece(seg),
                    self@[i as int],
                );
            }
            match &self.segments[i] {
                PathSegment::Literal(l) => {
                    out.append("/");
                    out.append(l.as_str());
                    assert(out@ =~= spec_render_template(self@.take(i + 1)));
                },
                PathSegment::Parameter(p) => {
                    out.append("/{");
                    out.append(p.as_str());
                    out.append("}");
                    assert(out@ =~= spec_render_template(self@.take(i + 1)));
                },
            }
            i = i + 1;
        }
        proof {
            assert(self@.take(self.segments@.len() as int) =~= self@);
        }
        out
    }
}

/// The parameter names of a segment sequence, in order.
pub open spec fn spec_path_args(segs: Seq<SegView>) -> Seq<Seq<char>>
    decreases segs.len(),
{
    if segs.len() == 0 {
        Seq::empty()
    } else {
        let rest = spec_path_args(segs.drop_first());
        match segs[0] {
            SegView::Parameter(p) => seq![p] + rest,
            SegView::Literal(_) => rest,
        }
    }
}

/// Appending one segment appends its parameter name, if it has one.
pub proof fn lemma_path_args_push(segs: Seq<SegView>, x: SegView)
    ensures
        spec_path_args(segs.push(x)) == spec_path_args(segs) + (match x {
            SegView::Parameter(p) => seq![p],
            SegView::Literal(_) => Seq::empty(),
        }),
    decreases segs.len(),
{
    let p = segs.push(x);
    let piece = (match x {
        SegView::Parameter(q) => seq![q],
        SegView::Literal(_) => Seq::<Seq<char>>::empty(),
    });
    assert(p.len() == segs.len() + 1);
    assert(p[0] == if segs.len() == 0 {
        x
    } else {
        segs[0]
    });
    if segs.len() == 0 {
        assert(p.drop_first() =~= Seq::<SegView>::empty());
        assert(spec_path_args(p.drop_first()) == Seq::<Seq<char>>::empty());
        assert(spec_path_args(p) =~= Seq::<Seq<char>>::empty() + piece);
        assert(Seq::<Seq<char>>::empty() + piece =~= spec_path_args(segs) + piece);
    } else {
        assert(p.drop_first() =~= segs.drop_first().push(x));
        lemma_path_args_push(segs.drop_first(), x);
        assert(spec_path_args(p.drop_first()) == spec_path_args(segs.drop_first()) + piece);
        match segs[0] {
            SegView::Parameter(q) => {
                assert(spec_path_args(p) == seq![q] + (spec_path_args(segs.drop_first()) + piece));
                assert(seq![q] + (spec_path_args(segs.drop_first()) + piece) =~= (seq![q]
                    + spec_path_args(segs.drop_first())) + piece);
            },
            SegView::Literal(_) => {
                assert(spec_path_args(p) == spec_path_args(segs.drop_first()) + piece);
            },
        }
    }
}

/// The piece a segment contributes to the positional routing template.
pub open spec fn template_piece(seg: SegView) -> Seq<char> {
    match seg {
        SegView::Literal(l) => "/"@ + l,
        SegView::Parameter(_) => "/{}"@,
    }
}

/// The whole positional routing template.
pub open spec fn spec_build_template(segs: Seq<SegView>) -> Seq<char> {
    concat_map(segs, |seg: SegView| template_piece(seg))
}

/// The piece a segment contributes to the name-preserving template.
pub open spec fn render_piece(seg: SegView) -> Seq<char> {
    match seg {
        SegView::Literal(l) => "/"@ + l,
        SegView::Parameter(p) => "/{"@ + p + "}"@,
    }
}

/// The whole name-preserving template.
pub open spec fn spec_render_template(segs: Seq<SegView>) -> Seq<char> {
    concat_map(segs, |seg: SegView| render_piece(seg))
}

/// A well-formed segment's text is non-empty and slash-free.
proof fn lemma_seg_text_no_slash(seg: SegView)
    requires
        seg_wf(seg),
    ensures
        seg_text(seg).len() > 0,
        forall|k: int| 0 <= k < seg_text(seg).len() ==> seg_text(seg)[k] != '/',
{
    let t = seg_text(seg);
    match seg {
        SegView::Literal(l) => {
            assert forall|k: int| 0 <= k < t.len() implies t[k] != '/' by {
                assert(is_alpha(l[k]));
            }
        },
        SegView::Parameter(p) => {
            assert forall|k: int| 0 <= k < t.len() implies t[k] != '/' by {
                if k == 0 {
                    assert(t[k] == '{');
                } else if k == t.len() - 1 {
                    assert(t[k] == '}');
                } else {
                    assert(t[k] == p[k - 1]);
                    assert(is_alpha(p[k - 1]));
                }
            }
        },
    }
}

/// Classifying the text of a well-formed segment gives that segment back.
proof fn lemma_classify_text(seg: SegView)
    requires
        seg_wf(seg),
    ensures
        classify_seg(seg_text(seg)) == Some(seg),
{
    match seg {
        SegView::Literal(l) => {
            assert(is_alpha_word(seg_text(seg)));
        },
        SegView::Parameter(p) => {
            let t = seg_text(seg);
            assert(t.len() == p.len() + 2);
            assert(t[0] == '{');
            assert(!is_alpha(t[0]));
            assert(!is_alpha_word(t));
            assert(t[t.len() - 1] == '}');
            assert(t.subrange(1, t.len() - 1) =~= p);
            assert(classify_seg(t) == Some(SegView::Parameter(p)));
        },
    }
}

/// The first character of any segment's rendered piece is the slash.
proof fn lemma_render_piece_shape(seg: SegView)
    ensures
        render_piece(seg).len() >= 1,
        render_piece(seg)[0] == '/',
        render_piece(seg).skip(1) =~= seg_text(seg),
{
    reveal_strlit("/");
    reveal_strlit("/{");
    reveal_strlit("}");
    match seg {
        SegView::Literal(l) => {
            assert(render_piece(seg).skip(1) =~= seg_text(seg));
        },
        SegView::Parameter(p) => {
            assert(render_piece(seg).skip(1) =~= seg_text(seg));
        },
    }
}

/// Parsing the rendered text of a non-empty well-formed path, from just
/// after its first slash, recovers exactly its segments.
proof fn lemma_parse_body(segs: Seq<SegView>)
    requires
        segs.len() > 0,
        path_wf(segs),
    ensures
        parse_rest(seg_text(segs[0]) + spec_render_template(segs.drop_first())) == Some(segs),
    decreases segs.len(),
{
    let t0 = seg_text(segs[0]);
    let u = spec_render_template(segs.drop_first());
    let s = t0 + u;
    assert(seg_wf(segs[0]));
    lemma_seg_text_no_slash(segs[0]);
    lemma_classify_text(segs[0]);
    if segs.len() == 1 {
        assert(segs.drop_first() =~= Seq::<SegView>::empty());
        assert(u == Seq::<char>::empty());
        assert forall|k: int| 0 <= k < s.len() implies s[k] != '/' by {
            assert(s[k] == t0[k]);
        }
        lemma_seg_end_unique(s, s.len() as int);
        assert(s.take(s.len() as int) =~= t0);
        assert(parse_rest(s) == Some(seq![segs[0]]));
        assert(seq![segs[0]] =~= segs);
    } else {
        let rest = segs.drop_first();
        assert(rest.len() > 0);
        assert(u == render_piece(rest[0]) + concat_map(
            rest.drop_first(),
            |seg: SegView| render_piece(seg),
        ));
        lemma_render_piece_shape(rest[0]);
        assert(u.len() > 0);
        assert(u[0] == '/');
        assert forall|k: int| 0 <= k < t0.len() implies s[k] != '/' by {
            assert(s[k] == t0[k]);
        }
        assert(s[t0.len() as int] == u[0]);
        lemma_seg_end_unique(s, t0.len() as int);
        assert(s.take(t0.len() as int) =~= t0);
        assert(s.skip(t0.len() as int + 1) =~= seg_text(rest[0]) + spec_render_template(
            rest.drop_first(),
        )) by {
            assert(s.skip(t0.len() as int + 1) =~= u.skip(1));
            assert(u.skip(1) =~= render_piece(rest[0]).skip(1) + concat_map(
                rest.drop_first(),
                |seg: SegView| render_piece(seg),
            ));
        }
        assert(path_wf(rest)) by {
            assert forall|i: int| 0 <= i < rest.len() implies seg_wf(#[trigger] rest[i]) by {
                assert(rest[i] == segs[i + 1]);
            }
        }
        lemma_parse_body(rest);
        assert(parse_rest(s) == Some(seq![segs[0]] + rest));
        assert(seq![segs[0]] + rest =~= segs);
    }
}

/// Round trip: rendering a non-empty, well-formed route path to its
/// name-preserving template string and re-analysing that string yields the
/// identical segment sequence. (The empty path renders to the empty
/// string, which analysis rejects, so it stands outside the law.)
pub proof fn lemma_template_round_trip(segs: Seq<SegView>)
    requires
        segs.len() > 0,
        path_wf(segs),
    ensures
        spec_analyse(spec_render_template(segs)) == Some(segs),
{
    let r = spec_render_template(segs);
    assert(r == render_piece(segs[0]) + concat_map(
        segs.drop_first(),
        |seg: SegView| render_piece(seg),
    ));
    lemma_render_piece_shape(segs[0]);
    assert(r.len() > 0);
    assert(r[0] == '/');
    assert(r.skip(1) =~= seg_text(segs[0]) + spec_render_template(segs.drop_first())) by {
        assert(r.skip(1) =~= render_piece(segs[0]).skip(1) + concat_map(
            segs.drop_first(),
            |seg: SegView| render_piece(seg),
        ));
    }
    lemma_parse_body(segs);
}

/// No two well-formed, non-empty segment sequences flatten to the same
/// name-preserving template: flattening is unambiguous.
pub proof fn lemma_template_unambiguous(a: Seq<SegView>, b: Seq<SegView>)
    requires
        a.len() > 0,
        b.len() > 0,
        path_wf(a),
        path_wf(b),
        spec_render_template(a) == spec_render_template(b),
    ensures
        a == b,
{
    lemma_template_round_trip(a);
    lemma_template_round_trip(b);
}

} // verus!
