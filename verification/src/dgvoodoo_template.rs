//! The file that is written where there is no `dgVoodoo.conf` yet is healthy.
use vstd::prelude::*;
use crate::dgvoodoo::{
    healthy_conf, is_header, lemma_unlines_push, open_heading, unlines, vram_enough, vram_line,
    CONF_TEMPLATE, VRAM_FLOOR,
};
use crate::dgvoodoo_laws::{
    lemma_api_named, lemma_key_line, lemma_line_occurs, lemma_lines_unlines, lemma_vram_line,
    settled,
};
use crate::lines::lines;
use crate::number::decimal;
use crate::text::{lower, occurs_at, trim};

verus! {

/// The template, read up to `k`, is the lines `ls`.
spec fn read_to(k: int, ls: Seq<Seq<char>>) -> bool {
    &&& 0 <= k <= CONF_TEMPLATE@.len()
    &&& CONF_TEMPLATE@.take(k) == unlines(ls)
    &&& forall|i: int| 0 <= i < ls.len() ==> settled(#[trigger] ls[i])
}

proof fn lemma_read(k: int, ls: Seq<Seq<char>>, l: Seq<char>)
    requires
        read_to(k, ls),
        settled(l),
        k + l.len() + 1 <= CONF_TEMPLATE@.len(),
        CONF_TEMPLATE@.subrange(k, k + l.len() + 1) == l.push('\n'),
    ensures
        read_to(k + l.len() + 1, ls.push(l)),
{
    let t = CONF_TEMPLATE@;
    lemma_unlines_push(ls, l);
    assert(t.take(k + l.len() + 1) =~= t.take(k) + t.subrange(k, k + l.len() + 1));
    assert(t.take(k) + l.push('\n') =~= unlines(ls) + l + seq!['\n']);
}

proof fn lemma_part_a(ls: Seq<Seq<char>>)
    requires
        read_to(0, ls),
    ensures
        read_to(187, ls.push("; Written by DLSS5oneclick — official dgVoodoo 2.87.3 (DX9 → D3D11 for ReShade dxgi.dll)"@).push("; https://github.com/dege-diosg/dgVoodoo2/releases/tag/v2.87.3"@).push("[General]"@).push("OutputAPI = d3d11_fl11_0"@)),
{
    let t = CONF_TEMPLATE@;
    reveal_strlit(
        "\
; Written by DLSS5oneclick — official dgVoodoo 2.87.3 (DX9 → D3D11 for ReShade dxgi.dll)
; https://github.com/dege-diosg/dgVoodoo2/releases/tag/v2.87.3
[General]
OutputAPI = d3d11_fl11_0
Adapters = all
FullScreenOutput = default
ScalingMode = unspecified
[DirectX]
VideoCard = internal3D
VRAM = 4096
Filtering = appdriven
Mipmapping = appdriven
Resolution = unforced
Antialiasing = appdriven
AppControlledScreenMode = true
ForceVerticalSync = false
dgVoodooWatermark = false
FastVideoMemoryAccess = false
[DirectXExt]
RTTexturesForceScaleAndMSAA = false
",
    );
    reveal_strlit("; Written by DLSS5oneclick — official dgVoodoo 2.87.3 (DX9 → D3D11 for ReShade dxgi.dll)");
    assert(t.subrange(0, 89) =~= "; Written by DLSS5oneclick — official dgVoodoo 2.87.3 (DX9 → D3D11 for ReShade dxgi.dll)"@.push('\n'));
    lemma_read(0, ls, "; Written by DLSS5oneclick — official dgVoodoo 2.87.3 (DX9 → D3D11 for ReShade dxgi.dll)"@);
    reveal_strlit("; https://github.com/dege-diosg/dgVoodoo2/releases/tag/v2.87.3");
    assert(t.subrange(89, 152) =~= "; https://github.com/dege-diosg/dgVoodoo2/releases/tag/v2.87.3"@.push('\n'));
    lemma_read(89, ls.push("; Written by DLSS5oneclick — official dgVoodoo 2.87.3 (DX9 → D3D11 for ReShade dxgi.dll)"@), "; https://github.com/dege-diosg/dgVoodoo2/releases/tag/v2.87.3"@);
    reveal_strlit("[General]");
    assert(t.subrange(152, 162) =~= "[General]"@.push('\n'));
    lemma_read(152, ls.push("; Written by DLSS5oneclick — official dgVoodoo 2.87.3 (DX9 → D3D11 for ReShade dxgi.dll)"@).push("; https://github.com/dege-diosg/dgVoodoo2/releases/tag/v2.87.3"@), "[General]"@);
    reveal_strlit("OutputAPI = d3d11_fl11_0");
    assert(t.subrange(162, 187) =~= "OutputAPI = d3d11_fl11_0"@.push('\n'));
    lemma_read(162, ls.push("; Written by DLSS5oneclick — official dgVoodoo 2.87.3 (DX9 → D3D11 for ReShade dxgi.dll)"@).push("; https://github.com/dege-diosg/dgVoodoo2/releases/tag/v2.87.3"@).push("[General]"@), "OutputAPI = d3d11_fl11_0"@);
}

proof fn lemma_part_b(ls: Seq<Seq<char>>)
    requires
        read_to(187, ls),
    ensures
        read_to(265, ls.push("Adapters = all"@).push("FullScreenOutput = default"@).push("ScalingMode = unspecified"@).push("[DirectX]"@)),
{
    let t = CONF_TEMPLATE@;
    reveal_strlit(
        "\
; Written by DLSS5oneclick — official dgVoodoo 2.87.3 (DX9 → D3D11 for ReShade dxgi.dll)
; https://github.com/dege-diosg/dgVoodoo2/releases/tag/v2.87.3
[General]
OutputAPI = d3d11_fl11_0
Adapters = all
FullScreenOutput = default
ScalingMode = unspecified
[DirectX]
VideoCard = internal3D
VRAM = 4096
Filtering = appdriven
Mipmapping = appdriven
Resolution = unforced
Antialiasing = appdriven
AppControlledScreenMode = true
ForceVerticalSync = false
dgVoodooWatermark = false
FastVideoMemoryAccess = false
[DirectXExt]
RTTexturesForceScaleAndMSAA = false
",
    );
    reveal_strlit("Adapters = all");
    assert(t.subrange(187, 202) =~= "Adapters = all"@.push('\n'));
    lemma_read(187, ls, "Adapters = all"@);
    reveal_strlit("FullScreenOutput = default");
    assert(t.subrange(202, 229) =~= "FullScreenOutput = default"@.push('\n'));
    lemma_read(202, ls.push("Adapters = all"@), "FullScreenOutput = default"@);
    reveal_strlit("ScalingMode = unspecified");
    assert(t.subrange(229, 255) =~= "ScalingMode = unspecified"@.push('\n'));
    lemma_read(229, ls.push("Adapters = all"@).push("FullScreenOutput = default"@), "ScalingMode = unspecified"@);
    reveal_strlit("[DirectX]");
    assert(t.subrange(255, 265) =~= "[DirectX]"@.push('\n'));
    lemma_read(255, ls.push("Adapters = all"@).push("FullScreenOutput = default"@).push("ScalingMode = unspecified"@), "[DirectX]"@);
}

proof fn lemma_part_c(ls: Seq<Seq<char>>)
    requires
        read_to(265, ls),
    ensures
        read_to(345, ls.push("VideoCard = internal3D"@).push("VRAM = 4096"@).push("Filtering = appdriven"@).push("Mipmapping = appdriven"@)),
{
    let t = CONF_TEMPLATE@;
    reveal_strlit(
        "\
; Written by DLSS5oneclick — official dgVoodoo 2.87.3 (DX9 → D3D11 for ReShade dxgi.dll)
; https://github.com/dege-diosg/dgVoodoo2/releases/tag/v2.87.3
[General]
OutputAPI = d3d11_fl11_0
Adapters = all
FullScreenOutput = default
ScalingMode = unspecified
[DirectX]
VideoCard = internal3D
VRAM = 4096
Filtering = appdriven
Mipmapping = appdriven
Resolution = unforced
Antialiasing = appdriven
AppControlledScreenMode = true
ForceVerticalSync = false
dgVoodooWatermark = false
FastVideoMemoryAccess = false
[DirectXExt]
RTTexturesForceScaleAndMSAA = false
",
    );
    reveal_strlit("VideoCard = internal3D");
    assert(t.subrange(265, 288) =~= "VideoCard = internal3D"@.push('\n'));
    lemma_read(265, ls, "VideoCard = internal3D"@);
    reveal_strlit("VRAM = 4096");
    assert(t.subrange(288, 300) =~= "VRAM = 4096"@.push('\n'));
    lemma_read(288, ls.push("VideoCard = internal3D"@), "VRAM = 4096"@);
    reveal_strlit("Filtering = appdriven");
    assert(t.subrange(300, 322) =~= "Filtering = appdriven"@.push('\n'));
    lemma_read(300, ls.push("VideoCard = internal3D"@).push("VRAM = 4096"@), "Filtering = appdriven"@);
    reveal_strlit("Mipmapping = appdriven");
    assert(t.subrange(322, 345) =~= "Mipmapping = appdriven"@.push('\n'));
    lemma_read(322, ls.push("VideoCard = internal3D"@).push("VRAM = 4096"@).push("Filtering = appdriven"@), "Mipmapping = appdriven"@);
}

proof fn lemma_part_d(ls: Seq<Seq<char>>)
    requires
        read_to(345, ls),
    ensures
        read_to(449, ls.push("Resolution = unforced"@).push("Antialiasing = appdriven"@).push("AppControlledScreenMode = true"@).push("ForceVerticalSync = false"@)),
{
    let t = CONF_TEMPLATE@;
    reveal_strlit(
        "\
; Written by DLSS5oneclick — official dgVoodoo 2.87.3 (DX9 → D3D11 for ReShade dxgi.dll)
; https://github.com/dege-diosg/dgVoodoo2/releases/tag/v2.87.3
[General]
OutputAPI = d3d11_fl11_0
Adapters = all
FullScreenOutput = default
ScalingMode = unspecified
[DirectX]
VideoCard = internal3D
VRAM = 4096
Filtering = appdriven
Mipmapping = appdriven
Resolution = unforced
Antialiasing = appdriven
AppControlledScreenMode = true
ForceVerticalSync = false
dgVoodooWatermark = false
FastVideoMemoryAccess = false
[DirectXExt]
RTTexturesForceScaleAndMSAA = false
",
    );
    reveal_strlit("Resolution = unforced");
    assert(t.subrange(345, 367) =~= "Resolution = unforced"@.push('\n'));
    lemma_read(345, ls, "Resolution = unforced"@);
    reveal_strlit("Antialiasing = appdriven");
    assert(t.subrange(367, 392) =~= "Antialiasing = appdriven"@.push('\n'));
    lemma_read(367, ls.push("Resolution = unforced"@), "Antialiasing = appdriven"@);
    reveal_strlit("AppControlledScreenMode = true");
    assert(t.subrange(392, 423) =~= "AppControlledScreenMode = true"@.push('\n'));
    lemma_read(392, ls.push("Resolution = unforced"@).push("Antialiasing = appdriven"@), "AppControlledScreenMode = true"@);
    reveal_strlit("ForceVerticalSync = false");
    assert(t.subrange(423, 449) =~= "ForceVerticalSync = false"@.push('\n'));
    lemma_read(423, ls.push("Resolution = unforced"@).push("Antialiasing = appdriven"@).push("AppControlledScreenMode = true"@), "ForceVerticalSync = false"@);
}

proof fn lemma_part_e(ls: Seq<Seq<char>>)
    requires
        read_to(449, ls),
    ensures
        read_to(554, ls.push("dgVoodooWatermark = false"@).push("FastVideoMemoryAccess = false"@).push("[DirectXExt]"@).push("RTTexturesForceScaleAndMSAA = false"@)),
{
    let t = CONF_TEMPLATE@;
    reveal_strlit(
        "\
; Written by DLSS5oneclick — official dgVoodoo 2.87.3 (DX9 → D3D11 for ReShade dxgi.dll)
; https://github.com/dege-diosg/dgVoodoo2/releases/tag/v2.87.3
[General]
OutputAPI = d3d11_fl11_0
Adapters = all
FullScreenOutput = default
ScalingMode = unspecified
[DirectX]
VideoCard = internal3D
VRAM = 4096
Filtering = appdriven
Mipmapping = appdriven
Resolution = unforced
Antialiasing = appdriven
AppControlledScreenMode = true
ForceVerticalSync = false
dgVoodooWatermark = false
FastVideoMemoryAccess = false
[DirectXExt]
RTTexturesForceScaleAndMSAA = false
",
    );
    reveal_strlit("dgVoodooWatermark = false");
    assert(t.subrange(449, 475) =~= "dgVoodooWatermark = false"@.push('\n'));
    lemma_read(449, ls, "dgVoodooWatermark = false"@);
    reveal_strlit("FastVideoMemoryAccess = false");
    assert(t.subrange(475, 505) =~= "FastVideoMemoryAccess = false"@.push('\n'));
    lemma_read(475, ls.push("dgVoodooWatermark = false"@), "FastVideoMemoryAccess = false"@);
    reveal_strlit("[DirectXExt]");
    assert(t.subrange(505, 518) =~= "[DirectXExt]"@.push('\n'));
    lemma_read(505, ls.push("dgVoodooWatermark = false"@).push("FastVideoMemoryAccess = false"@), "[DirectXExt]"@);
    reveal_strlit("RTTexturesForceScaleAndMSAA = false");
    assert(t.subrange(518, 554) =~= "RTTexturesForceScaleAndMSAA = false"@.push('\n'));
    lemma_read(518, ls.push("dgVoodooWatermark = false"@).push("FastVideoMemoryAccess = false"@).push("[DirectXExt]"@), "RTTexturesForceScaleAndMSAA = false"@);
}

/// The lines of the template.
spec fn template_lines() -> Seq<Seq<char>> {
    Seq::empty().push("; Written by DLSS5oneclick — official dgVoodoo 2.87.3 (DX9 → D3D11 for ReShade dxgi.dll)"@).push("; https://github.com/dege-diosg/dgVoodoo2/releases/tag/v2.87.3"@).push("[General]"@).push("OutputAPI = d3d11_fl11_0"@).push("Adapters = all"@).push("FullScreenOutput = default"@).push("ScalingMode = unspecified"@).push("[DirectX]"@).push("VideoCard = internal3D"@).push("VRAM = 4096"@).push("Filtering = appdriven"@).push("Mipmapping = appdriven"@).push("Resolution = unforced"@).push("Antialiasing = appdriven"@).push("AppControlledScreenMode = true"@).push("ForceVerticalSync = false"@).push("dgVoodooWatermark = false"@).push("FastVideoMemoryAccess = false"@).push("[DirectXExt]"@).push("RTTexturesForceScaleAndMSAA = false"@)
}

proof fn lemma_template()
    ensures
        lines(CONF_TEMPLATE@) == template_lines(),
        CONF_TEMPLATE@ == unlines(template_lines()),
{
    let none = Seq::<Seq<char>>::empty();
    assert(CONF_TEMPLATE@.take(0) =~= unlines(none));
    lemma_part_a(none);
    let g0 = none.push("; Written by DLSS5oneclick — official dgVoodoo 2.87.3 (DX9 → D3D11 for ReShade dxgi.dll)"@).push("; https://github.com/dege-diosg/dgVoodoo2/releases/tag/v2.87.3"@).push("[General]"@).push("OutputAPI = d3d11_fl11_0"@);
    lemma_part_b(g0);
    let g1 = g0.push("Adapters = all"@).push("FullScreenOutput = default"@).push("ScalingMode = unspecified"@).push("[DirectX]"@);
    lemma_part_c(g1);
    let g2 = g1.push("VideoCard = internal3D"@).push("VRAM = 4096"@).push("Filtering = appdriven"@).push("Mipmapping = appdriven"@);
    lemma_part_d(g2);
    let g3 = g2.push("Resolution = unforced"@).push("Antialiasing = appdriven"@).push("AppControlledScreenMode = true"@).push("ForceVerticalSync = false"@);
    lemma_part_e(g3);
    reveal_strlit(
        "\
; Written by DLSS5oneclick — official dgVoodoo 2.87.3 (DX9 → D3D11 for ReShade dxgi.dll)
; https://github.com/dege-diosg/dgVoodoo2/releases/tag/v2.87.3
[General]
OutputAPI = d3d11_fl11_0
Adapters = all
FullScreenOutput = default
ScalingMode = unspecified
[DirectX]
VideoCard = internal3D
VRAM = 4096
Filtering = appdriven
Mipmapping = appdriven
Resolution = unforced
Antialiasing = appdriven
AppControlledScreenMode = true
ForceVerticalSync = false
dgVoodooWatermark = false
FastVideoMemoryAccess = false
[DirectXExt]
RTTexturesForceScaleAndMSAA = false
",
    );
    assert(CONF_TEMPLATE@.take(554) =~= CONF_TEMPLATE@);
    lemma_lines_unlines(template_lines());
}

/// A key line that is not `VRAM` leaves the check where it was.
proof fn lemma_other_key(ls: Seq<Seq<char>>, key: Seq<char>, value: Seq<char>, t: Seq<char>)
    requires
        t == key + " = "@ + value,
        key.len() > 0,
        key.len() != 4,
        !crate::text::is_space(key[0]),
        !crate::text::is_space(key.last()),
        value.len() > 0,
        !crate::text::is_space(value[0]),
        !crate::text::is_space(value.last()),
        key[0] != '[',
        forall|j: int| 0 <= j < key.len() ==> key[j] != '=' && key[j] != '\n',
        forall|j: int| 0 <= j < value.len() ==> value[j] != '\n',
    ensures
        vram_enough(ls.push(t)) == vram_enough(ls),
        open_heading(ls.push(t)) == open_heading(ls),
{
    lemma_key_line(t, key, value, key.len() as int);
    reveal_strlit("VRAM");
    assert(lower("VRAM"@).len() == 4);
    assert(lower(key).len() == key.len());
    assert(ls.push(t).drop_last() =~= ls);
}

proof fn lemma_heading(ls: Seq<Seq<char>>, h: Seq<char>)
    requires
        is_header(h),
        trim(h) == h,
    ensures
        vram_enough(ls.push(h)) == vram_enough(ls),
        open_heading(ls.push(h)) == h,
{
    assert(ls.push(h).drop_last() =~= ls);
}

proof fn lemma_vram_here(ls: Seq<Seq<char>>)
    requires
        open_heading(ls) == "[DirectX]"@,
    ensures
        vram_enough(ls.push("VRAM = 4096"@)),
        open_heading(ls.push("VRAM = 4096"@)) == "[DirectX]"@,
{
    reveal_strlit("VRAM = 4096");
    reveal_strlit("VRAM = ");
    reveal_with_fuel(decimal, 5);
    assert("VRAM = 4096"@ =~= vram_line(VRAM_FLOOR as nat));
    lemma_vram_line(VRAM_FLOOR as nat);
    assert(ls.push("VRAM = 4096"@).drop_last() =~= ls);
}

proof fn lemma_template_vram()
    ensures
        vram_enough(template_lines()),
{
    reveal_strlit(" = ");
    reveal_strlit("[DirectX]");
    reveal_strlit("[DirectXExt]");
    let before = Seq::<Seq<char>>::empty().push("; Written by DLSS5oneclick — official dgVoodoo 2.87.3 (DX9 → D3D11 for ReShade dxgi.dll)"@).push("; https://github.com/dege-diosg/dgVoodoo2/releases/tag/v2.87.3"@).push("[General]"@).push("OutputAPI = d3d11_fl11_0"@).push("Adapters = all"@).push("FullScreenOutput = default"@).push("ScalingMode = unspecified"@);
    lemma_heading(before, "[DirectX]"@);
    let l0 = before.push("[DirectX]"@);
    reveal_strlit("VideoCard = internal3D");
    assert("VideoCard = internal3D"@ =~= "VideoCard = internal3D"@.take(9) + " = "@ + "VideoCard = internal3D"@.skip(12));
    lemma_other_key(l0, "VideoCard = internal3D"@.take(9), "VideoCard = internal3D"@.skip(12), "VideoCard = internal3D"@);
    let l1 = l0.push("VideoCard = internal3D"@);
    lemma_vram_here(l1);
    let l2 = l1.push("VRAM = 4096"@);
    reveal_strlit("Filtering = appdriven");
    assert("Filtering = appdriven"@ =~= "Filtering = appdriven"@.take(9) + " = "@ + "Filtering = appdriven"@.skip(12));
    lemma_other_key(l2, "Filtering = appdriven"@.take(9), "Filtering = appdriven"@.skip(12), "Filtering = appdriven"@);
    let l3 = l2.push("Filtering = appdriven"@);
    reveal_strlit("Mipmapping = appdriven");
    assert("Mipmapping = appdriven"@ =~= "Mipmapping = appdriven"@.take(10) + " = "@ + "Mipmapping = appdriven"@.skip(13));
    lemma_other_key(l3, "Mipmapping = appdriven"@.take(10), "Mipmapping = appdriven"@.skip(13), "Mipmapping = appdriven"@);
    let l4 = l3.push("Mipmapping = appdriven"@);
    reveal_strlit("Resolution = unforced");
    assert("Resolution = unforced"@ =~= "Resolution = unforced"@.take(10) + " = "@ + "Resolution = unforced"@.skip(13));
    lemma_other_key(l4, "Resolution = unforced"@.take(10), "Resolution = unforced"@.skip(13), "Resolution = unforced"@);
    let l5 = l4.push("Resolution = unforced"@);
    reveal_strlit("Antialiasing = appdriven");
    assert("Antialiasing = appdriven"@ =~= "Antialiasing = appdriven"@.take(12) + " = "@ + "Antialiasing = appdriven"@.skip(15));
    lemma_other_key(l5, "Antialiasing = appdriven"@.take(12), "Antialiasing = appdriven"@.skip(15), "Antialiasing = appdriven"@);
    let l6 = l5.push("Antialiasing = appdriven"@);
    reveal_strlit("AppControlledScreenMode = true");
    assert("AppControlledScreenMode = true"@ =~= "AppControlledScreenMode = true"@.take(23) + " = "@ + "AppControlledScreenMode = true"@.skip(26));
    lemma_other_key(l6, "AppControlledScreenMode = true"@.take(23), "AppControlledScreenMode = true"@.skip(26), "AppControlledScreenMode = true"@);
    let l7 = l6.push("AppControlledScreenMode = true"@);
    reveal_strlit("ForceVerticalSync = false");
    assert("ForceVerticalSync = false"@ =~= "ForceVerticalSync = false"@.take(17) + " = "@ + "ForceVerticalSync = false"@.skip(20));
    lemma_other_key(l7, "ForceVerticalSync = false"@.take(17), "ForceVerticalSync = false"@.skip(20), "ForceVerticalSync = false"@);
    let l8 = l7.push("ForceVerticalSync = false"@);
    reveal_strlit("dgVoodooWatermark = false");
    assert("dgVoodooWatermark = false"@ =~= "dgVoodooWatermark = false"@.take(17) + " = "@ + "dgVoodooWatermark = false"@.skip(20));
    lemma_other_key(l8, "dgVoodooWatermark = false"@.take(17), "dgVoodooWatermark = false"@.skip(20), "dgVoodooWatermark = false"@);
    let l9 = l8.push("dgVoodooWatermark = false"@);
    reveal_strlit("FastVideoMemoryAccess = false");
    assert("FastVideoMemoryAccess = false"@ =~= "FastVideoMemoryAccess = false"@.take(21) + " = "@ + "FastVideoMemoryAccess = false"@.skip(24));
    lemma_other_key(l9, "FastVideoMemoryAccess = false"@.take(21), "FastVideoMemoryAccess = false"@.skip(24), "FastVideoMemoryAccess = false"@);
    let l10 = l9.push("FastVideoMemoryAccess = false"@);
    lemma_heading(l10, "[DirectXExt]"@);
    let l11 = l10.push("[DirectXExt]"@);
    reveal_strlit("RTTexturesForceScaleAndMSAA = false");
    assert("RTTexturesForceScaleAndMSAA = false"@ =~= "RTTexturesForceScaleAndMSAA = false"@.take(27) + " = "@ + "RTTexturesForceScaleAndMSAA = false"@.skip(30));
    lemma_other_key(l11, "RTTexturesForceScaleAndMSAA = false"@.take(27), "RTTexturesForceScaleAndMSAA = false"@.skip(30), "RTTexturesForceScaleAndMSAA = false"@);
    let l12 = l11.push("RTTexturesForceScaleAndMSAA = false"@);
    assert(l12 =~= template_lines());
}

/// The template passes the health check.
pub proof fn law_template_is_healthy()
    ensures
        healthy_conf(CONF_TEMPLATE@),
{
    lemma_template();
    lemma_template_vram();
    let ls = template_lines();
    assert(ls[3] == "OutputAPI = d3d11_fl11_0"@);
    lemma_line_occurs(ls, 3);
    let k = choose|k: int| #[trigger] occurs_at(unlines(ls), ls[3], k);
    lemma_api_named(CONF_TEMPLATE@, k);
}

} // verus!
