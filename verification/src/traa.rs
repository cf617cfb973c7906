//! The UI-protect patch of `lumenite_TRAA.fx`: Geometric DLAA by default, and no
//! temporal blend where `DLSS5_Mask` or HUD-like luma edges without depth
//! structure say so. It leaves TRAA enabled or disabled as the user set it.
use vstd::prelude::*;
use crate::lang::{say, tr, Lang};
use crate::lines::join;
use crate::text::{chars, contains, find, holds, lemma_find, occurs_at, replace, replaced, string};

verus! {

/// Marker embedded in the patch: a text that holds it is patched already.
pub const MARKER: &'static str = "DLSS5_TRAA_UI_PROTECT";

pub const TRAA_FX: &'static str = "lumenite_TRAA.fx";

/// Default Edge Detection (the stock tooltip already says that Geometric
/// ignores flat UI).
pub const EDGE: &'static str =
    "\"Geometric: silhouettes only, ignores flat UI.\";\n    > = 0;";

pub const EDGE_PATCH: &'static str =
    "\"Geometric: silhouettes only, ignores flat UI.\";\n    > = 1;";

pub const IMPORTS: &'static str = "/*--------------.\n| :: IMPORTS :: |\n'--------------*/";

/// The uniforms, before the imports.
pub const IMPORTS_PATCH: &'static str = r#"
// DLSS5_TRAA_UI_PROTECT -- favour current frame on HUD/text (DLSS5oneclick)
uniform bool UI_PROTECT <
    ui_label = "Protect UI / text (skip temporal)";
    ui_tooltip = "Lowers temporal blend where DLSS5_Mask distrusts motion, and where\n"
                 "sharp luma edges lack geometric depth/normal structure (typical HUD/text).\n"
                 "Needs Kernel above + DLSS 5 Feed above this effect for the bias mask.";
> = true;

uniform float UI_PROTECT_STRENGTH <
    ui_type = "drag";
    ui_min = 0.0; ui_max = 1.0; ui_step = 0.05;
    ui_label = "UI protect strength";
> = 1.0;

/*--------------.
| :: IMPORTS :: |
'--------------*/"#;

pub const NAMESPACE: &'static str = "namespace LumeniteTRAA {";

/// The mask, before the namespace.
pub const NAMESPACE_PATCH: &'static str = r#"
// DLSS5_TRAA_UI_PROTECT -- same pooled mask Feed writes (bias-current-colour)
texture DLSS5_Mask { Width = BUFFER_WIDTH; Height = BUFFER_HEIGHT; Format = R8; };
sampler sDLSS5_Mask { Texture = DLSS5_Mask; MinFilter = POINT; MagFilter = POINT; MipFilter = POINT; };

namespace LumeniteTRAA {"#;

pub const CONFIDENCE: &'static str =
    "    confidence = saturate(confidence + 0.11 * 4.0 * confidence * (1.0 - confidence));\n\n    float2 historyUV = texcoord + flow;";

/// Less confidence on what looks like HUD or text.
pub const CONFIDENCE_PATCH: &'static str = r#"    confidence = saturate(confidence + 0.11 * 4.0 * confidence * (1.0 - confidence));

    // DLSS5_TRAA_UI_PROTECT
    if (UI_PROTECT)
    {
        float distrust = tex2Dlod(sDLSS5_Mask, float4(texcoord, 0.0, 0.0)).x;
        float4 nPack = tex2Dlod(Kernel::sNormals, float4(texcoord, 0.0, 0.0));
        float2 px = BUFFER_PIXEL_SIZE;
        float dL = tex2Dlod(Kernel::sNormals, float4(texcoord - float2(px.x, 0.0), 0.0, 0.0)).a;
        float dR = tex2Dlod(Kernel::sNormals, float4(texcoord + float2(px.x, 0.0), 0.0, 0.0)).a;
        float dT = tex2Dlod(Kernel::sNormals, float4(texcoord - float2(0.0, px.y), 0.0, 0.0)).a;
        float dB = tex2Dlod(Kernel::sNormals, float4(texcoord + float2(0.0, px.y), 0.0, 0.0)).a;
        float depthEdge = abs(dL - dR) + abs(dT - dB);
        float nEdge = length(nPack.xyz - tex2Dlod(Kernel::sNormals, float4(texcoord + float2(px.x, 0.0), 0.0, 0.0)).xyz);
        float lumaEdge = abs(GetLuminance(samples[3]) - GetLuminance(samples[5]))
                       + abs(GetLuminance(samples[1]) - GetLuminance(samples[7]));
        // Sharp text/HUD edges without geometric structure
        float uiHint = saturate(lumaEdge * 6.0) * (1.0 - saturate(depthEdge * 40.0 + nEdge * 4.0));
        // Screen-space UI often gets camera/scene flow while depth stays flat
        float mvPx = length(flow * float2(BUFFER_WIDTH, BUFFER_HEIGHT));
        float badFlow = saturate(mvPx * 0.25) * (1.0 - saturate(depthEdge * 40.0));
        float skip = saturate(max(max(distrust, uiHint), badFlow) * UI_PROTECT_STRENGTH);
        confidence *= (1.0 - skip);
    }

    float2 historyUV = texcoord + flow;"#;

pub const TOOLTIP: &'static str = "ui_tooltip = \"Temporal Reprojection Anti-Aliasing.\";";

pub const TOOLTIP_PATCH: &'static str =
    "ui_tooltip = \"Temporal Reprojection Anti-Aliasing.\\n\\n\
Place BELOW DLSS 5 Feed. Edge Detection=Geometric + Protect UI/text reduce HUD smear.\\n\
Uses DLSS5_Mask from Feed when present (DLSS5oneclick UI protect patch).\";";

pub const ALREADY_EN: &'static str =
    "reshade-shaders/Shaders/lumenite_TRAA.fx (UI protect, already applied)";

pub const ALREADY_ZH: &'static str =
    "reshade-shaders/Shaders/lumenite_TRAA.fx（UI 保护，已应用）";

pub const SKIP_EDGE_EN: &'static str =
    "reshade-shaders/Shaders/lumenite_TRAA.fx (UI protect skipped: EDGE_MODE layout changed)";

pub const SKIP_EDGE_ZH: &'static str =
    "reshade-shaders/Shaders/lumenite_TRAA.fx（跳过 UI 保护：EDGE_MODE 布局已变）";

pub const SKIP_IMPORTS_EN: &'static str =
    "reshade-shaders/Shaders/lumenite_TRAA.fx (UI protect skipped: IMPORTS layout changed)";

pub const SKIP_IMPORTS_ZH: &'static str =
    "reshade-shaders/Shaders/lumenite_TRAA.fx（跳过 UI 保护：IMPORTS 布局已变）";

pub const SKIP_NAMESPACE_EN: &'static str =
    "reshade-shaders/Shaders/lumenite_TRAA.fx (UI protect skipped: namespace layout changed)";

pub const SKIP_NAMESPACE_ZH: &'static str =
    "reshade-shaders/Shaders/lumenite_TRAA.fx（跳过 UI 保护：命名空间布局已变）";

pub const SKIP_CONFIDENCE_EN: &'static str =
    "reshade-shaders/Shaders/lumenite_TRAA.fx (UI protect skipped: PS_TRAA layout changed)";

pub const SKIP_CONFIDENCE_ZH: &'static str =
    "reshade-shaders/Shaders/lumenite_TRAA.fx（跳过 UI 保护：PS_TRAA 布局已变）";

pub const PATCHED_EN: &'static str =
    "reshade-shaders/Shaders/lumenite_TRAA.fx (UI protect patch)";

pub const PATCHED_ZH: &'static str =
    "reshade-shaders/Shaders/lumenite_TRAA.fx（UI 保护补丁）";

/// What becomes of the shader: a line for the log, and the new text where it
/// changes.
#[derive(Debug)]
pub struct TraaPatch {
    pub line: &'static str,
    pub text: Option<String>,
}

/// A [`TraaPatch`] as characters.
pub struct Patch {
    pub line: Seq<char>,
    pub text: Option<Seq<char>>,
}

impl View for TraaPatch {
    type V = Patch;

    open spec fn view(&self) -> Patch {
        Patch { line: self.line@, text: crate::text::opt_text(self.text) }
    }
}

pub open spec fn with_edge(t: Seq<char>) -> Seq<char> {
    replace(t, EDGE@, EDGE_PATCH@)
}

pub open spec fn with_uniforms(t: Seq<char>) -> Seq<char> {
    replace(with_edge(t), IMPORTS@, IMPORTS_PATCH@)
}

pub open spec fn with_mask(t: Seq<char>) -> Seq<char> {
    replace(with_uniforms(t), NAMESPACE@, NAMESPACE_PATCH@)
}

pub open spec fn with_confidence(t: Seq<char>) -> Seq<char> {
    replace(with_mask(t), CONFIDENCE@, CONFIDENCE_PATCH@)
}

/// The patch of a shader. Nothing is changed where the shader is patched
/// already, or where an anchor of the patch is not found.
pub open spec fn patch(l: Lang, t: Seq<char>) -> Patch {
    if contains(t, MARKER@) {
        Patch { line: say(l, ALREADY_EN@, ALREADY_ZH@), text: None }
    } else if !contains(t, EDGE@) {
        Patch { line: say(l, SKIP_EDGE_EN@, SKIP_EDGE_ZH@), text: None }
    } else if !contains(with_edge(t), IMPORTS@) {
        Patch { line: say(l, SKIP_IMPORTS_EN@, SKIP_IMPORTS_ZH@), text: None }
    } else if !contains(with_uniforms(t), NAMESPACE@) {
        Patch { line: say(l, SKIP_NAMESPACE_EN@, SKIP_NAMESPACE_ZH@), text: None }
    } else if !contains(with_mask(t), CONFIDENCE@) {
        Patch { line: say(l, SKIP_CONFIDENCE_EN@, SKIP_CONFIDENCE_ZH@), text: None }
    } else {
        Patch {
            line: say(l, PATCHED_EN@, PATCHED_ZH@),
            text: Some(replace(with_confidence(t), TOOLTIP@, TOOLTIP_PATCH@)),
        }
    }
}

proof fn lemma_anchors()
    ensures
        EDGE@.len() > 0,
        IMPORTS@.len() > 0,
        NAMESPACE@.len() > 0,
        CONFIDENCE@.len() > 0,
        TOOLTIP@.len() > 0,
{
    reveal_strlit("\"Geometric: silhouettes only, ignores flat UI.\";\n    > = 0;");
    reveal_strlit("/*--------------.\n| :: IMPORTS :: |\n'--------------*/");
    reveal_strlit("namespace LumeniteTRAA {");
    reveal_strlit(
        "    confidence = saturate(confidence + 0.11 * 4.0 * confidence * (1.0 - confidence));\n\n    float2 historyUV = texcoord + flow;",
    );
    reveal_strlit("ui_tooltip = \"Temporal Reprojection Anti-Aliasing.\";");
}

/// Soft-patch an installed `lumenite_TRAA.fx`: its text, `None` where there is no
/// such file, of which nothing is said.
pub fn apply_traa_ui_patch(l: Lang, text: Option<&str>) -> (r: Option<TraaPatch>)
    ensures
        r is Some <==> text is Some,
        r matches Some(p) ==> p@ == patch(l, text->0@),
{
    match text {
        Some(t) => Some(patched(l, t)),
        None => None,
    }
}

fn patched(l: Lang, text: &str) -> (r: TraaPatch)
    ensures
        r@ == patch(l, text@),
{
    proof {
        lemma_anchors();
    }
    let t = chars(text);
    if holds(t.as_slice(), MARKER) {
        return TraaPatch { line: tr(l, ALREADY_EN, ALREADY_ZH), text: None };
    }
    if !holds(t.as_slice(), EDGE) {
        return TraaPatch { line: tr(l, SKIP_EDGE_EN, SKIP_EDGE_ZH), text: None };
    }
    let a = replaced(t.as_slice(), EDGE, EDGE_PATCH);
    if !holds(a.as_slice(), IMPORTS) {
        return TraaPatch { line: tr(l, SKIP_IMPORTS_EN, SKIP_IMPORTS_ZH), text: None };
    }
    let b = replaced(a.as_slice(), IMPORTS, IMPORTS_PATCH);
    if !holds(b.as_slice(), NAMESPACE) {
        return TraaPatch { line: tr(l, SKIP_NAMESPACE_EN, SKIP_NAMESPACE_ZH), text: None };
    }
    let c = replaced(b.as_slice(), NAMESPACE, NAMESPACE_PATCH);
    if !holds(c.as_slice(), CONFIDENCE) {
        return TraaPatch { line: tr(l, SKIP_CONFIDENCE_EN, SKIP_CONFIDENCE_ZH), text: None };
    }
    let d = replaced(c.as_slice(), CONFIDENCE, CONFIDENCE_PATCH);
    let e = replaced(d.as_slice(), TOOLTIP, TOOLTIP_PATCH);
    TraaPatch { line: tr(l, PATCHED_EN, PATCHED_ZH), text: Some(string(e.as_slice())) }
}

// ── laws ───────────────────────────────────────────────────────────

proof fn lemma_contains_part(s: Seq<char>, p: Seq<char>, q: Seq<char>)
    requires
        contains(s, p),
        contains(p, q),
    ensures
        contains(s, q),
{
    let i = choose|i: int| occurs_at(s, p, i);
    let j = choose|j: int| occurs_at(p, q, j);
    let w = s.subrange(i, i + p.len());
    assert(w == p);
    assert(s.subrange(i + j, i + j + q.len()) =~= w.subrange(j, j + q.len()));
    assert(occurs_at(s, q, i + j));
}

proof fn lemma_contains_around(a: Seq<char>, p: Seq<char>, b: Seq<char>)
    ensures
        contains(a + p + b, p),
{
    let s = a + p + b;
    let i = a.len() as int;
    assert(s.subrange(i, i + p.len()) =~= p);
    assert(occurs_at(s, p, i));
}

/// What was put in place of something that is there is there.
proof fn lemma_replace_puts(s: Seq<char>, from: Seq<char>, to: Seq<char>)
    requires
        from.len() > 0,
        contains(s, from),
    ensures
        contains(replace(s, from, to), to),
{
    lemma_find(s, from);
    let i = find(s, from)->0;
    lemma_contains_around(s.take(i), to, replace(s.skip(i + from.len()), from, to));
}

/// A text stays where something else is replaced that it cannot overlap.
proof fn lemma_replace_keeps(s: Seq<char>, from: Seq<char>, to: Seq<char>, p: Seq<char>)
    requires
        from.len() > 0,
        p.len() > 0,
        contains(s, p),
        forall|j: int| 0 <= j < p.len() ==> p[j] != from[0],
        forall|j: int| 0 <= j < from.len() ==> from[j] != p[0],
    ensures
        contains(replace(s, from, to), p),
    decreases s.len(),
{
    lemma_find(s, from);
    let k = choose|k: int| occurs_at(s, p, k);
    assert(s.subrange(k, k + p.len()) == p);
    if find(s, from) is Some {
        let i = find(s, from)->0;
        let n = from.len() as int;
        let tail = s.skip(i + n);
        let done = replace(tail, from, to);
        assert(s.subrange(i, i + n) == from);
        if k < i {
            if i < k + p.len() {
                assert(s[i] == s.subrange(i, i + n)[0]);
                assert(s[i] == s.subrange(k, k + p.len())[i - k]);
                assert(false);
            }
            assert(s.take(i).subrange(k, k + p.len()) =~= p);
            assert(occurs_at(s.take(i), p, k));
            let out = s.take(i) + to + done;
            assert(out.subrange(k, k + p.len()) =~= p);
            assert(occurs_at(out, p, k));
        } else if k < i + n {
            assert(s[k] == s.subrange(i, i + n)[k - i]);
            assert(s[k] == s.subrange(k, k + p.len())[0]);
            assert(false);
        } else {
            let m = k - (i + n);
            assert(tail.subrange(m, m + p.len()) =~= p);
            assert(occurs_at(tail, p, m));
            lemma_replace_keeps(tail, from, to, p);
            let q = choose|q: int| occurs_at(done, p, q);
            let out = s.take(i) + to + done;
            let at = i + to.len() + q;
            assert(done.subrange(q, q + p.len()) == p);
            assert(out.subrange(at, at + p.len()) =~= done.subrange(q, q + p.len()));
            assert(occurs_at(out, p, at));
        }
    }
}

proof fn lemma_marker()
    ensures
        MARKER@.len() > 0,
        contains(NAMESPACE_PATCH@, MARKER@),
        forall|j: int| 0 <= j < MARKER@.len() ==> MARKER@[j] != CONFIDENCE@[0],
        forall|j: int| 0 <= j < CONFIDENCE@.len() ==> CONFIDENCE@[j] != MARKER@[0],
        forall|j: int| 0 <= j < MARKER@.len() ==> MARKER@[j] != TOOLTIP@[0],
        forall|j: int| 0 <= j < TOOLTIP@.len() ==> TOOLTIP@[j] != MARKER@[0],
{
    reveal_strlit("DLSS5_TRAA_UI_PROTECT");
    reveal_strlit(
        "    confidence = saturate(confidence + 0.11 * 4.0 * confidence * (1.0 - confidence));\n\n    float2 historyUV = texcoord + flow;",
    );
    reveal_strlit("ui_tooltip = \"Temporal Reprojection Anti-Aliasing.\";");
    lemma_mask_marker();
}

proof fn lemma_mask_marker()
    ensures
        contains(NAMESPACE_PATCH@, MARKER@),
{
    reveal_strlit("DLSS5_TRAA_UI_PROTECT");
    reveal_strlit(
        r#"
// DLSS5_TRAA_UI_PROTECT -- same pooled mask Feed writes (bias-current-colour)
texture DLSS5_Mask { Width = BUFFER_WIDTH; Height = BUFFER_HEIGHT; Format = R8; };
sampler sDLSS5_Mask { Texture = DLSS5_Mask; MinFilter = POINT; MagFilter = POINT; MipFilter = POINT; };

namespace LumeniteTRAA {"#,
    );
    assert(NAMESPACE_PATCH@.subrange(4, 25) =~= MARKER@);
    assert(occurs_at(NAMESPACE_PATCH@, MARKER@, 4));
}

/// A patched shader carries the marker, so patching it again says that it is
/// patched already and changes nothing.
pub proof fn law_patch_is_applied_once(l: Lang, t: Seq<char>)
    ensures
        patch(l, t).text matches Some(out) ==> contains(out, MARKER@) && patch(l, out) == (Patch {
            line: say(l, ALREADY_EN@, ALREADY_ZH@),
            text: None,
        }),
{
    if patch(l, t).text is Some {
        lemma_anchors();
        lemma_marker();
        let c = with_mask(t);
        lemma_replace_puts(with_uniforms(t), NAMESPACE@, NAMESPACE_PATCH@);
        lemma_contains_part(c, NAMESPACE_PATCH@, MARKER@);
        lemma_replace_keeps(c, CONFIDENCE@, CONFIDENCE_PATCH@, MARKER@);
        lemma_replace_keeps(with_confidence(t), TOOLTIP@, TOOLTIP_PATCH@, MARKER@);
    }
}

/// `p` occurs in `a + x + b` only where it occurs in `a + b`: it cannot touch
/// `x`, whose first and last characters are line feeds. At the first one `p`
/// would go on with the slash that follows it; behind it the first `n`
/// characters of `p`, which hold `c` and no line feed, would have to stand in
/// `x`, which does not hold `c`.
proof fn lemma_inserted(a: Seq<char>, x: Seq<char>, b: Seq<char>, p: Seq<char>, n: int, c: char)
    requires
        contains(a + x + b, p),
        keeps_apart(x, p, n, c),
    ensures
        contains(a + b, p),
{
    let s = a + x + b;
    let k = choose|k: int| occurs_at(s, p, k);
    let w = s.subrange(k, k + p.len());
    assert(w == p);
    assert forall|j: int| 0 <= j < p.len() implies #[trigger] p[j] == s[k + j] by {
        assert(w[j] == s[k + j]);
    }
    let out = a + b;
    if k + p.len() <= a.len() {
        assert(out.subrange(k, k + p.len()) =~= p);
        assert(occurs_at(out, p, k));
    } else if k >= a.len() + x.len() {
        let m = k - x.len();
        assert(out.subrange(m, m + p.len()) =~= p);
        assert(occurs_at(out, p, m));
    } else if k <= a.len() {
        let j = a.len() - k;
        assert(p[j] == x[0]);
        assert(p[j + 1] == x[1]);
    } else {
        let o = k - a.len();
        if o + n <= x.len() {
            let j = choose|j: int| 0 <= j < n && p[j] == c;
            assert(p[j] == x[o + j]);
        } else {
            let j = x.len() - 1 - o;
            assert(p[j] == x[x.len() - 1]);
        }
    }
}

spec fn keeps_apart(x: Seq<char>, p: Seq<char>, n: int, c: char) -> bool {
    &&& x.len() >= 2
    &&& x[0] == '\n'
    &&& x[1] == '/'
    &&& x[x.len() - 1] == '\n'
    &&& 0 < n <= p.len()
    &&& forall|j: int| 0 <= j < n ==> #[trigger] p[j] != '\n'
    &&& exists|j: int| 0 <= j < n && #[trigger] p[j] == c
    &&& forall|i: int| 0 <= i < x.len() ==> #[trigger] x[i] != c
    &&& forall|j: int|
        0 <= j < p.len() && #[trigger] p[j] == '\n' ==> j + 1 < p.len() && p[j + 1] != '/'
}

/// Putting `x` before every `from` brings about no `p`.
proof fn lemma_insertions(
    pre: Seq<char>,
    s: Seq<char>,
    from: Seq<char>,
    x: Seq<char>,
    p: Seq<char>,
    n: int,
    c: char,
)
    requires
        from.len() > 0,
        contains(pre + replace(s, from, x + from), p),
        keeps_apart(x, p, n, c),
    ensures
        contains(pre + s, p),
    decreases s.len(),
{
    lemma_find(s, from);
    if let Some(i) = find(s, from) {
        let tail = s.skip(i + from.len());
        let a = pre + s.take(i);
        let b = from + tail;
        assert(pre + replace(s, from, x + from) =~= a + x + from + replace(
            tail,
            from,
            x + from,
        ));
        lemma_insertions(a + x + from, tail, from, x, p, n, c);
        assert(a + x + from + tail =~= a + x + b);
        lemma_inserted(a, x, b, p, n, c);
        assert(s.subrange(i, i + from.len()) == from);
        assert(a + b =~= pre + s);
    }
}

/// Two texts that differ in one digit, which follows a space.
spec fn one_digit(from: Seq<char>, to: Seq<char>, m: int) -> bool {
    &&& from.len() == to.len()
    &&& 0 < m < to.len()
    &&& to[m - 1] == ' '
    &&& to[m] == '1'
    &&& forall|i: int| 0 <= i < to.len() && i != m ==> #[trigger] from[i] == to[i]
}

/// No digit `1` stands behind a space.
spec fn no_lone_digit(p: Seq<char>) -> bool {
    &&& p.len() > 0
    &&& p[0] != '1'
    &&& forall|j: int| 0 < j < p.len() && #[trigger] p[j] == '1' ==> p[j - 1] != ' '
}

/// Changing that digit everywhere brings about no `p`.
proof fn lemma_digits(
    pre: Seq<char>,
    s: Seq<char>,
    from: Seq<char>,
    to: Seq<char>,
    m: int,
    p: Seq<char>,
)
    requires
        contains(pre + replace(s, from, to), p),
        one_digit(from, to, m),
        no_lone_digit(p),
    ensures
        contains(pre + s, p),
    decreases s.len(),
{
    lemma_find(s, from);
    if let Some(i) = find(s, from) {
        let tail = s.skip(i + from.len());
        let a = pre + s.take(i);
        assert(pre + replace(s, from, to) =~= a + to + replace(tail, from, to));
        lemma_digits(a + to, tail, from, to, m, p);
        let was = a + to + tail;
        let out = pre + s;
        assert(s.subrange(i, i + from.len()) == from);
        assert(out =~= a + from + tail);
        let k = choose|k: int| occurs_at(was, p, k);
        let w = was.subrange(k, k + p.len());
        assert(w == p);
        let j = a.len() + m - k;
        if 0 <= j < p.len() {
            assert(w[j] == was[k + j] && was[k + j] == to[m]);
            if j > 0 {
                assert(w[j - 1] == was[k + j - 1] && was[k + j - 1] == to[m - 1]);
            }
            assert(false);
        }
        assert forall|q: int| 0 <= q < p.len() implies #[trigger] out.subrange(
            k,
            k + p.len(),
        )[q] == p[q] by {
            assert(w[q] == was[k + q]);
            let at = k + q - a.len();
            if 0 <= at < to.len() {
                assert(from[at] == to[at]);
            }
        }
        assert(out.subrange(k, k + p.len()) =~= p);
        assert(occurs_at(out, p, k));
    }
}

/// What goes before the imports.
spec fn uniforms() -> Seq<char> {
    IMPORTS_PATCH@.take(IMPORTS_PATCH@.len() - IMPORTS@.len())
}

/// What goes before the namespace.
spec fn mask() -> Seq<char> {
    NAMESPACE_PATCH@.take(NAMESPACE_PATCH@.len() - NAMESPACE@.len())
}

proof fn lemma_uniforms()
    ensures
        IMPORTS_PATCH@ == uniforms() + IMPORTS@,
        uniforms().len() >= 2,
        uniforms()[0] == '\n',
        uniforms()[1] == '/',
        uniforms()[uniforms().len() - 1] == '\n',
        forall|i: int| 0 <= i < uniforms().len() ==> #[trigger] uniforms()[i] != '{',
        forall|i: int| 0 <= i < uniforms().len() ==> #[trigger] uniforms()[i] != '*',
{
    reveal_strlit("/*--------------.\n| :: IMPORTS :: |\n'--------------*/");
    reveal_strlit(
        r#"
// DLSS5_TRAA_UI_PROTECT -- favour current frame on HUD/text (DLSS5oneclick)
uniform bool UI_PROTECT <
    ui_label = "Protect UI / text (skip temporal)";
    ui_tooltip = "Lowers temporal blend where DLSS5_Mask distrusts motion, and where\n"
                 "sharp luma edges lack geometric depth/normal structure (typical HUD/text).\n"
                 "Needs Kernel above + DLSS 5 Feed above this effect for the bias mask.";
> = true;

uniform float UI_PROTECT_STRENGTH <
    ui_type = "drag";
    ui_min = 0.0; ui_max = 1.0; ui_step = 0.05;
    ui_label = "UI protect strength";
> = 1.0;

/*--------------.
| :: IMPORTS :: |
'--------------*/"#,
    );
    assert(IMPORTS_PATCH@ =~= uniforms() + IMPORTS@);
}

proof fn lemma_mask()
    ensures
        NAMESPACE_PATCH@ == mask() + NAMESPACE@,
        mask().len() >= 2,
        mask()[0] == '\n',
        mask()[1] == '/',
        mask()[mask().len() - 1] == '\n',
        forall|i: int| 0 <= i < mask().len() ==> #[trigger] mask()[i] != '*',
{
    reveal_strlit("namespace LumeniteTRAA {");
    reveal_strlit(
        r#"
// DLSS5_TRAA_UI_PROTECT -- same pooled mask Feed writes (bias-current-colour)
texture DLSS5_Mask { Width = BUFFER_WIDTH; Height = BUFFER_HEIGHT; Format = R8; };
sampler sDLSS5_Mask { Texture = DLSS5_Mask; MinFilter = POINT; MagFilter = POINT; MipFilter = POINT; };

namespace LumeniteTRAA {"#,
    );
    assert(NAMESPACE_PATCH@ =~= mask() + NAMESPACE@);
}

proof fn lemma_edges()
    ensures
        one_digit(EDGE@, EDGE_PATCH@, EDGE@.len() - 2),
        no_lone_digit(IMPORTS@),
        no_lone_digit(NAMESPACE@),
        no_lone_digit(CONFIDENCE@),
{
    reveal_strlit("\"Geometric: silhouettes only, ignores flat UI.\";\n    > = 0;");
    reveal_strlit("\"Geometric: silhouettes only, ignores flat UI.\";\n    > = 1;");
    reveal_strlit("/*--------------.\n| :: IMPORTS :: |\n'--------------*/");
    reveal_strlit("namespace LumeniteTRAA {");
    reveal_strlit(
        "    confidence = saturate(confidence + 0.11 * 4.0 * confidence * (1.0 - confidence));\n\n    float2 historyUV = texcoord + flow;",
    );
}

proof fn lemma_apart()
    ensures
        keeps_apart(uniforms(), NAMESPACE@, 24, '{'),
        keeps_apart(uniforms(), CONFIDENCE@, 60, '*'),
        keeps_apart(mask(), CONFIDENCE@, 60, '*'),
{
    lemma_uniforms();
    lemma_mask();
    reveal_strlit("namespace LumeniteTRAA {");
    reveal_strlit(
        "    confidence = saturate(confidence + 0.11 * 4.0 * confidence * (1.0 - confidence));\n\n    float2 historyUV = texcoord + flow;",
    );
    assert(NAMESPACE@[23] == '{');
    assert(CONFIDENCE@[44] == '*');
}

/// A shader that lacks any one of the four anchors stays as it is, whatever else
/// it holds: no part of the patch brings about the anchor of a later part.
pub proof fn law_missing_anchor_leaves_text(l: Lang, t: Seq<char>)
    ensures
        !contains(t, EDGE@) ==> patch(l, t).text is None,
        !contains(t, IMPORTS@) ==> patch(l, t).text is None,
        !contains(t, NAMESPACE@) ==> patch(l, t).text is None,
        !contains(t, CONFIDENCE@) ==> patch(l, t).text is None,
{
    lemma_anchors();
    lemma_edges();
    lemma_uniforms();
    lemma_mask();
    lemma_apart();
    let none = Seq::<char>::empty();
    let (a, b, c) = (with_edge(t), with_uniforms(t), with_mask(t));
    let m = EDGE@.len() - 2;
    assert(none + t =~= t && none + a =~= a && none + b =~= b && none + c =~= c);
    if contains(a, IMPORTS@) {
        lemma_digits(none, t, EDGE@, EDGE_PATCH@, m, IMPORTS@);
    }
    if contains(b, NAMESPACE@) {
        lemma_insertions(none, a, IMPORTS@, uniforms(), NAMESPACE@, 24, '{');
        lemma_digits(none, t, EDGE@, EDGE_PATCH@, m, NAMESPACE@);
    }
    if contains(c, CONFIDENCE@) {
        lemma_insertions(none, b, NAMESPACE@, mask(), CONFIDENCE@, 60, '*');
        lemma_insertions(none, a, IMPORTS@, uniforms(), CONFIDENCE@, 60, '*');
        lemma_digits(none, t, EDGE@, EDGE_PATCH@, m, CONFIDENCE@);
    }
}

// ── what a patched shader holds ────────────────────────────────────

/// No occurrence of `from` can share a character with one of `p`: however the
/// two are laid over each other, they differ somewhere.
spec fn apart(p: Seq<char>, from: Seq<char>) -> bool {
    forall|d: int| -from.len() < d < p.len() ==> #[trigger] differ(p, from, d)
}

/// `from`, laid over `p` at `d`, differs from it.
spec fn differ(p: Seq<char>, from: Seq<char>, d: int) -> bool {
    exists|q: int|
        0 <= q < from.len() && 0 <= d + q < p.len() && p[d + q] != #[trigger] from[q]
}

/// A text stays where something else is replaced that stands apart from it.
proof fn lemma_replace_keeps_apart(s: Seq<char>, from: Seq<char>, to: Seq<char>, p: Seq<char>)
    requires
        from.len() > 0,
        p.len() > 0,
        contains(s, p),
        apart(p, from),
    ensures
        contains(replace(s, from, to), p),
    decreases s.len(),
{
    lemma_find(s, from);
    let k = choose|k: int| occurs_at(s, p, k);
    assert(s.subrange(k, k + p.len()) == p);
    if find(s, from) is Some {
        let i = find(s, from)->0;
        let n = from.len() as int;
        let tail = s.skip(i + n);
        let done = replace(tail, from, to);
        assert(s.subrange(i, i + n) == from);
        if k + p.len() <= i {
            let out = s.take(i) + to + done;
            assert(out.subrange(k, k + p.len()) =~= p);
            assert(occurs_at(out, p, k));
        } else if k >= i + n {
            let m = k - (i + n);
            assert(tail.subrange(m, m + p.len()) =~= p);
            assert(occurs_at(tail, p, m));
            lemma_replace_keeps_apart(tail, from, to, p);
            let q = choose|q: int| occurs_at(done, p, q);
            let out = s.take(i) + to + done;
            let at = i + to.len() + q;
            assert(done.subrange(q, q + p.len()) == p);
            assert(out.subrange(at, at + p.len()) =~= done.subrange(q, q + p.len()));
            assert(occurs_at(out, p, at));
        } else {
            let d = i - k;
            assert(differ(p, from, d));
            let q = choose|q: int|
                0 <= q < from.len() && 0 <= d + q < p.len() && p[d + q] != #[trigger] from[q];
            assert(s.subrange(i, i + n)[q] == s[i + q]);
            assert(s.subrange(k, k + p.len())[d + q] == s[i + q]);
            assert(false);
        }
    }
}

/// Texts stand apart where two characters in a row of the one are not in the
/// other, nor its first one at the end of that, and the one does not start
/// inside the other.
proof fn lemma_stands_apart(p: Seq<char>, from: Seq<char>, k: int)
    requires
        0 <= k,
        k + 1 < from.len(),
        k + 1 < p.len(),
        forall|j: int|
            0 <= j < p.len() - 1 && #[trigger] p[j] == from[k] ==> p[j + 1] != from[k + 1],
        forall|j: int| p.len() - k - 1 <= j < p.len() ==> #[trigger] p[j] != from[0],
        forall|j: int|
            0 <= j < from.len() && #[trigger] from[j] == p[0] ==> j + 1 < from.len() && from[j + 1]
                != p[1],
    ensures
        apart(p, from),
{
    assert forall|d: int| -from.len() < d < p.len() implies #[trigger] differ(
        p,
        from,
        d,
    ) by {
        if d < 0 {
            if from[-d] != p[0] {
                assert(p[d + (-d)] != from[-d]);
            } else {
                assert(p[d + (1 - d)] != from[1 - d]);
            }
        } else if d + k + 1 < p.len() {
            if p[d + k] == from[k] {
                assert(p[d + (k + 1)] != from[k + 1]);
            }
        } else {
            assert(p[d + 0] != from[0]);
        }
    }
}

proof fn lemma_edge_apart()
    ensures
        EDGE_PATCH@.len() > 0,
        apart(EDGE_PATCH@, IMPORTS@),
        apart(EDGE_PATCH@, NAMESPACE@),
        apart(EDGE_PATCH@, CONFIDENCE@),
        apart(EDGE_PATCH@, TOOLTIP@),
{
    reveal_strlit(
        "\"Geometric: silhouettes only, ignores flat UI.\";\n    > = 1;",
    );
    reveal_strlit("/*--------------.\n| :: IMPORTS :: |\n'--------------*/");
    reveal_strlit("namespace LumeniteTRAA {");
    reveal_strlit(
        "    confidence = saturate(confidence + 0.11 * 4.0 * confidence * (1.0 - confidence));\n\n    float2 historyUV = texcoord + flow;",
    );
    reveal_strlit("ui_tooltip = \"Temporal Reprojection Anti-Aliasing.\";");
    lemma_stands_apart(EDGE_PATCH@, IMPORTS@, 0);
    lemma_stands_apart(EDGE_PATCH@, NAMESPACE@, 0);
    lemma_stands_apart(EDGE_PATCH@, TOOLTIP@, 0);
    let (p, from) = (EDGE_PATCH@, CONFIDENCE@);
    assert forall|d: int| -from.len() < d < p.len() implies #[trigger] differ(
        p,
        from,
        d,
    ) by {
        if d < 0 {
            assert(p[d + (-d)] != from[-d]);
        } else if 49 <= d <= 52 {
            assert(p[d + (53 - d)] != from[53 - d]);
        } else if p[d] == ' ' {
            assert(p[d + 1] != from[1]);
        } else {
            assert(p[d + 0] != from[0]);
        }
    }
}

proof fn lemma_uniforms_apart()
    ensures
        IMPORTS_PATCH@.len() > 0,
        apart(IMPORTS_PATCH@, NAMESPACE@),
        apart(IMPORTS_PATCH@, CONFIDENCE@),
        apart(IMPORTS_PATCH@, TOOLTIP@),
{
    reveal_strlit(
        r#"
// DLSS5_TRAA_UI_PROTECT -- favour current frame on HUD/text (DLSS5oneclick)
uniform bool UI_PROTECT <
    ui_label = "Protect UI / text (skip temporal)";
    ui_tooltip = "Lowers temporal blend where DLSS5_Mask distrusts motion, and where\n"
                 "sharp luma edges lack geometric depth/normal structure (typical HUD/text).\n"
                 "Needs Kernel above + DLSS 5 Feed above this effect for the bias mask.";
> = true;

uniform float UI_PROTECT_STRENGTH <
    ui_type = "drag";
    ui_min = 0.0; ui_max = 1.0; ui_step = 0.05;
    ui_label = "UI protect strength";
> = 1.0;

/*--------------.
| :: IMPORTS :: |
'--------------*/"#,
    );
    reveal_strlit("namespace LumeniteTRAA {");
    reveal_strlit(
        "    confidence = saturate(confidence + 0.11 * 4.0 * confidence * (1.0 - confidence));\n\n    float2 historyUV = texcoord + flow;",
    );
    reveal_strlit("ui_tooltip = \"Temporal Reprojection Anti-Aliasing.\";");
    lemma_stands_apart(IMPORTS_PATCH@, NAMESPACE@, 0);
    lemma_stands_apart(IMPORTS_PATCH@, CONFIDENCE@, 6);
    lemma_stands_apart(IMPORTS_PATCH@, TOOLTIP@, 13);
}

proof fn lemma_mask_apart()
    ensures
        NAMESPACE_PATCH@.len() > 0,
        apart(NAMESPACE_PATCH@, CONFIDENCE@),
        apart(NAMESPACE_PATCH@, TOOLTIP@),
{
    reveal_strlit(
        r#"
// DLSS5_TRAA_UI_PROTECT -- same pooled mask Feed writes (bias-current-colour)
texture DLSS5_Mask { Width = BUFFER_WIDTH; Height = BUFFER_HEIGHT; Format = R8; };
sampler sDLSS5_Mask { Texture = DLSS5_Mask; MinFilter = POINT; MagFilter = POINT; MipFilter = POINT; };

namespace LumeniteTRAA {"#,
    );
    reveal_strlit(
        "    confidence = saturate(confidence + 0.11 * 4.0 * confidence * (1.0 - confidence));\n\n    float2 historyUV = texcoord + flow;",
    );
    reveal_strlit("ui_tooltip = \"Temporal Reprojection Anti-Aliasing.\";");
    lemma_stands_apart(NAMESPACE_PATCH@, CONFIDENCE@, 0);
    lemma_stands_apart(NAMESPACE_PATCH@, TOOLTIP@, 0);
}

proof fn lemma_confidence_apart()
    ensures
        CONFIDENCE_PATCH@.len() > 0,
        apart(CONFIDENCE_PATCH@, TOOLTIP@),
{
    reveal_strlit(
        r#"    confidence = saturate(confidence + 0.11 * 4.0 * confidence * (1.0 - confidence));

    // DLSS5_TRAA_UI_PROTECT
    if (UI_PROTECT)
    {
        float distrust = tex2Dlod(sDLSS5_Mask, float4(texcoord, 0.0, 0.0)).x;
        float4 nPack = tex2Dlod(Kernel::sNormals, float4(texcoord, 0.0, 0.0));
        float2 px = BUFFER_PIXEL_SIZE;
        float dL = tex2Dlod(Kernel::sNormals, float4(texcoord - float2(px.x, 0.0), 0.0, 0.0)).a;
        float dR = tex2Dlod(Kernel::sNormals, float4(texcoord + float2(px.x, 0.0), 0.0, 0.0)).a;
        float dT = tex2Dlod(Kernel::sNormals, float4(texcoord - float2(0.0, px.y), 0.0, 0.0)).a;
        float dB = tex2Dlod(Kernel::sNormals, float4(texcoord + float2(0.0, px.y), 0.0, 0.0)).a;
        float depthEdge = abs(dL - dR) + abs(dT - dB);
        float nEdge = length(nPack.xyz - tex2Dlod(Kernel::sNormals, float4(texcoord + float2(px.x, 0.0), 0.0, 0.0)).xyz);
        float lumaEdge = abs(GetLuminance(samples[3]) - GetLuminance(samples[5]))
                       + abs(GetLuminance(samples[1]) - GetLuminance(samples[7]));
        // Sharp text/HUD edges without geometric structure
        float uiHint = saturate(lumaEdge * 6.0) * (1.0 - saturate(depthEdge * 40.0 + nEdge * 4.0));
        // Screen-space UI often gets camera/scene flow while depth stays flat
        float mvPx = length(flow * float2(BUFFER_WIDTH, BUFFER_HEIGHT));
        float badFlow = saturate(mvPx * 0.25) * (1.0 - saturate(depthEdge * 40.0));
        float skip = saturate(max(max(distrust, uiHint), badFlow) * UI_PROTECT_STRENGTH);
        confidence *= (1.0 - skip);
    }

    float2 historyUV = texcoord + flow;"#,
    );
    reveal_strlit("ui_tooltip = \"Temporal Reprojection Anti-Aliasing.\";");
    lemma_stands_apart(CONFIDENCE_PATCH@, TOOLTIP@, 13);
}

/// A patched shader holds every part of the patch as a whole: the edge default,
/// the uniforms before the imports, the mask before the namespace, and the code
/// that takes the temporal blend back between the confidence and the history.
pub proof fn law_patch_holds_its_parts(l: Lang, t: Seq<char>)
    ensures
        patch(l, t).text matches Some(out) ==> {
            &&& contains(out, EDGE_PATCH@)
            &&& contains(out, IMPORTS_PATCH@)
            &&& contains(out, NAMESPACE_PATCH@)
            &&& contains(out, CONFIDENCE_PATCH@)
        },
{
    if patch(l, t).text is Some {
        lemma_anchors();
        lemma_edge_apart();
        lemma_uniforms_apart();
        lemma_mask_apart();
        lemma_confidence_apart();
        let (a, b, c, d) = (with_edge(t), with_uniforms(t), with_mask(t), with_confidence(t));
        lemma_replace_puts(t, EDGE@, EDGE_PATCH@);
        lemma_replace_keeps_apart(a, IMPORTS@, IMPORTS_PATCH@, EDGE_PATCH@);
        lemma_replace_keeps_apart(b, NAMESPACE@, NAMESPACE_PATCH@, EDGE_PATCH@);
        lemma_replace_keeps_apart(c, CONFIDENCE@, CONFIDENCE_PATCH@, EDGE_PATCH@);
        lemma_replace_keeps_apart(d, TOOLTIP@, TOOLTIP_PATCH@, EDGE_PATCH@);
        lemma_replace_puts(a, IMPORTS@, IMPORTS_PATCH@);
        lemma_replace_keeps_apart(b, NAMESPACE@, NAMESPACE_PATCH@, IMPORTS_PATCH@);
        lemma_replace_keeps_apart(c, CONFIDENCE@, CONFIDENCE_PATCH@, IMPORTS_PATCH@);
        lemma_replace_keeps_apart(d, TOOLTIP@, TOOLTIP_PATCH@, IMPORTS_PATCH@);
        lemma_replace_puts(b, NAMESPACE@, NAMESPACE_PATCH@);
        lemma_replace_keeps_apart(c, CONFIDENCE@, CONFIDENCE_PATCH@, NAMESPACE_PATCH@);
        lemma_replace_keeps_apart(d, TOOLTIP@, TOOLTIP_PATCH@, NAMESPACE_PATCH@);
        lemma_replace_puts(c, CONFIDENCE@, CONFIDENCE_PATCH@);
        lemma_replace_keeps_apart(d, TOOLTIP@, TOOLTIP_PATCH@, CONFIDENCE_PATCH@);
    }
}

/// `out` is `s` with every `from` in it replaced by `to`, and nothing else: both
/// are the same pieces, none of which holds `from`, put together with the one or
/// the other between them.
pub open spec fn is_swapped(s: Seq<char>, out: Seq<char>, from: Seq<char>, to: Seq<char>) -> bool {
    exists|v: Seq<Seq<char>>|
        v.len() > 0 && s == #[trigger] join(v, from) && out == join(v, to) && forall|i: int|
            0 <= i < v.len() ==> !contains(#[trigger] v[i], from)
}

proof fn lemma_join_front(x: Seq<char>, w: Seq<Seq<char>>, sep: Seq<char>)
    requires
        w.len() > 0,
    ensures
        join(seq![x] + w, sep) == x + sep + join(w, sep),
    decreases w.len(),
{
    let v = seq![x] + w;
    if w.len() == 1 {
        let u = v.drop_last();
        assert(u =~= seq![x]);
        assert(join(u, sep) == x);
        assert(join(w, sep) == w[0]);
        assert(v.last() == w[0]);
        assert(join(v, sep) == join(u, sep) + sep + v.last());
    } else {
        let u = w.drop_last();
        lemma_join_front(x, u, sep);
        assert(v.drop_last() =~= seq![x] + u);
        assert(v.last() == w.last());
        assert(join(v, sep) =~= x + sep + (join(u, sep) + sep + w.last()));
    }
}

proof fn lemma_swapped(s: Seq<char>, from: Seq<char>, to: Seq<char>)
    requires
        from.len() > 0,
    ensures
        is_swapped(s, replace(s, from, to), from, to),
    decreases s.len(),
{
    lemma_find(s, from);
    match find(s, from) {
        Some(i) => {
            let n = from.len() as int;
            let tail = s.skip(i + n);
            lemma_swapped(tail, from, to);
            let w = choose|w: Seq<Seq<char>>|
                w.len() > 0 && tail == #[trigger] join(w, from) && replace(tail, from, to) == join(
                    w,
                    to,
                ) && forall|k: int| 0 <= k < w.len() ==> !contains(#[trigger] w[k], from);
            let x = s.take(i);
            let v = seq![x] + w;
            lemma_join_front(x, w, from);
            lemma_join_front(x, w, to);
            assert(s.subrange(i, i + n) == from);
            assert(s =~= x + from + tail);
            assert(replace(s, from, to) =~= x + to + replace(tail, from, to));
            assert(!contains(x, from)) by {
                if contains(x, from) {
                    let k = choose|k: int| occurs_at(x, from, k);
                    assert(s.subrange(k, k + n) =~= x.subrange(k, k + n));
                    assert(occurs_at(s, from, k));
                }
            }
            assert forall|k: int| 0 <= k < v.len() implies !contains(#[trigger] v[k], from) by {
                if k > 0 {
                    assert(v[k] == w[k - 1]);
                }
            }
            assert(s == join(v, from) && replace(s, from, to) == join(v, to));
        },
        None => {
            let v = seq![s];
            assert(v[0] == s);
            assert(join(v, from) == s && join(v, to) == s);
        },
    }
}

/// A patched shader is the shader with its anchors replaced by the parts of the
/// patch, one after the other, and nothing else.
pub proof fn law_patch_changes_nothing_else(l: Lang, t: Seq<char>)
    ensures
        patch(l, t).text matches Some(out) ==> exists|
            a: Seq<char>,
            b: Seq<char>,
            c: Seq<char>,
            d: Seq<char>,
        |
            {
                &&& #[trigger] is_swapped(t, a, EDGE@, EDGE_PATCH@)
                &&& #[trigger] is_swapped(a, b, IMPORTS@, IMPORTS_PATCH@)
                &&& #[trigger] is_swapped(b, c, NAMESPACE@, NAMESPACE_PATCH@)
                &&& #[trigger] is_swapped(c, d, CONFIDENCE@, CONFIDENCE_PATCH@)
                &&& is_swapped(d, out, TOOLTIP@, TOOLTIP_PATCH@)
            },
{
    lemma_anchors();
    if patch(l, t).text is Some {
        let (a, b, c, d) = (with_edge(t), with_uniforms(t), with_mask(t), with_confidence(t));
        lemma_swapped(t, EDGE@, EDGE_PATCH@);
        lemma_swapped(a, IMPORTS@, IMPORTS_PATCH@);
        lemma_swapped(b, NAMESPACE@, NAMESPACE_PATCH@);
        lemma_swapped(c, CONFIDENCE@, CONFIDENCE_PATCH@);
        lemma_swapped(d, TOOLTIP@, TOOLTIP_PATCH@);
    }
}

proof fn lemma_anchors_apart()
    ensures
        apart(IMPORTS@, EDGE@),
        apart(NAMESPACE@, EDGE@),
        apart(NAMESPACE@, IMPORTS@),
        apart(CONFIDENCE@, EDGE@),
        apart(CONFIDENCE@, IMPORTS@),
        apart(CONFIDENCE@, NAMESPACE@),
{
    reveal_strlit(
        "\"Geometric: silhouettes only, ignores flat UI.\";\n    > = 0;",
    );
    reveal_strlit("/*--------------.\n| :: IMPORTS :: |\n'--------------*/");
    reveal_strlit("namespace LumeniteTRAA {");
    reveal_strlit(
        "    confidence = saturate(confidence + 0.11 * 4.0 * confidence * (1.0 - confidence));\n\n    float2 historyUV = texcoord + flow;",
    );
    lemma_stands_apart(IMPORTS@, EDGE@, 0);
    lemma_stands_apart(NAMESPACE@, EDGE@, 0);
    lemma_stands_apart(NAMESPACE@, IMPORTS@, 0);
    lemma_stands_apart(CONFIDENCE@, IMPORTS@, 0);
    lemma_stands_apart(CONFIDENCE@, NAMESPACE@, 0);
    let (p, from) = (CONFIDENCE@, EDGE@);
    assert forall|d: int| -from.len() < d < p.len() implies #[trigger] differ(
        p,
        from,
        d,
    ) by {
        if d >= 0 {
            assert(p[d + 0] != from[0]);
        } else if 49 <= -d <= 52 {
            assert(p[d + 53] != from[53]);
        } else if from[-d] != p[0] {
            assert(p[d + (-d)] != from[-d]);
        } else {
            assert(p[d + (1 - d)] != from[1 - d]);
        }
    }
}

/// A shader is patched exactly when it holds the four anchors and no marker:
/// no part of the patch brings about an anchor, and none takes one away.
pub proof fn law_patched_where_the_anchors_are(l: Lang, t: Seq<char>)
    ensures
        patch(l, t).text is Some <==> {
            &&& !contains(t, "DLSS5_TRAA_UI_PROTECT"@)
            &&& contains(t, EDGE@)
            &&& contains(t, IMPORTS@)
            &&& contains(t, NAMESPACE@)
            &&& contains(t, CONFIDENCE@)
        },
        patch(l, t).line == if contains(t, "DLSS5_TRAA_UI_PROTECT"@) {
            say(l, ALREADY_EN@, ALREADY_ZH@)
        } else if !contains(t, EDGE@) {
            say(l, SKIP_EDGE_EN@, SKIP_EDGE_ZH@)
        } else if !contains(t, IMPORTS@) {
            say(l, SKIP_IMPORTS_EN@, SKIP_IMPORTS_ZH@)
        } else if !contains(t, NAMESPACE@) {
            say(l, SKIP_NAMESPACE_EN@, SKIP_NAMESPACE_ZH@)
        } else if !contains(t, CONFIDENCE@) {
            say(l, SKIP_CONFIDENCE_EN@, SKIP_CONFIDENCE_ZH@)
        } else {
            say(l, PATCHED_EN@, PATCHED_ZH@)
        },
{
    lemma_anchors();
    lemma_anchors_apart();
    lemma_kept_anchors(t);
}

/// Each anchor is there after a part of the patch exactly when it was before.
proof fn lemma_kept_anchors(t: Seq<char>)
    ensures
        contains(with_edge(t), IMPORTS@) <==> contains(t, IMPORTS@),
        contains(with_uniforms(t), NAMESPACE@) <==> contains(t, NAMESPACE@),
        contains(with_mask(t), CONFIDENCE@) <==> contains(t, CONFIDENCE@),
{
    lemma_anchors();
    lemma_anchors_apart();
    lemma_edges();
    lemma_uniforms();
    lemma_mask();
    lemma_apart();
    let none = Seq::<char>::empty();
    let (a, b, c) = (with_edge(t), with_uniforms(t), with_mask(t));
    let m = EDGE@.len() - 2;
    assert(none + t =~= t && none + a =~= a && none + b =~= b && none + c =~= c);
    if contains(a, IMPORTS@) {
        lemma_digits(none, t, EDGE@, EDGE_PATCH@, m, IMPORTS@);
    }
    if contains(b, NAMESPACE@) {
        lemma_insertions(none, a, IMPORTS@, uniforms(), NAMESPACE@, 24, '{');
        lemma_digits(none, t, EDGE@, EDGE_PATCH@, m, NAMESPACE@);
    }
    if contains(c, CONFIDENCE@) {
        lemma_insertions(none, b, NAMESPACE@, mask(), CONFIDENCE@, 60, '*');
        lemma_insertions(none, a, IMPORTS@, uniforms(), CONFIDENCE@, 60, '*');
        lemma_digits(none, t, EDGE@, EDGE_PATCH@, m, CONFIDENCE@);
    }
    if contains(t, IMPORTS@) {
        lemma_replace_keeps_apart(t, EDGE@, EDGE_PATCH@, IMPORTS@);
    }
    if contains(t, NAMESPACE@) {
        lemma_replace_keeps_apart(t, EDGE@, EDGE_PATCH@, NAMESPACE@);
        lemma_replace_keeps_apart(a, IMPORTS@, IMPORTS_PATCH@, NAMESPACE@);
    }
    if contains(t, CONFIDENCE@) {
        lemma_replace_keeps_apart(t, EDGE@, EDGE_PATCH@, CONFIDENCE@);
        lemma_replace_keeps_apart(a, IMPORTS@, IMPORTS_PATCH@, CONFIDENCE@);
        lemma_replace_keeps_apart(b, NAMESPACE@, NAMESPACE_PATCH@, CONFIDENCE@);
    }
}

} // verus!
