//! Structural invariants of the specification, across every machine: the
//! properties a converter relies on when it reads the spec.
use vstd::prelude::*;

use super::{
    commodore_amiga_ocs, commodore_c64, first_palette, machines_view, sinclair_zx_spectrum,
    spec_machine, spec_planes, ConstraintRule, PaletteModelView,
};

verus! {


/// Machine ids are unique, and looking a machine up by its own id gives it
/// back; an id no machine carries finds nothing.
pub proof fn lemma_machine_ids_unique_and_resolvable()
    ensures
        forall|i: int, j: int|
            0 <= i < j < machines_view().len() ==> machines_view()[i].id
                != machines_view()[j].id,
        forall|i: int|
            0 <= i < machines_view().len() ==> spec_machine(machines_view()[i].id) == Some(
                machines_view()[i],
            ),
        forall|id: Seq<char>|
            (forall|i: int| 0 <= i < machines_view().len() ==> machines_view()[i].id != id)
                ==> spec_machine(id) is None,
{
    reveal_strlit("sinclair-zx-spectrum");
    reveal_strlit("commodore-c64");
    reveal_strlit("commodore-amiga-ocs");
    let ms = machines_view();
    assert(ms[0].id.len() != ms[1].id.len());
    assert(ms[0].id.len() != ms[2].id.len());
    assert(ms[1].id.len() != ms[2].id.len());
}

/// Mode names are unique within each machine.
pub proof fn lemma_mode_names_unique()
    ensures
        forall|m: int, i: int, j: int|
            0 <= m < machines_view().len() && 0 <= i < j < machines_view()[m].modes.len()
                ==> machines_view()[m].modes[i].name != machines_view()[m].modes[j].name,
{
    reveal_strlit("standard");
    reveal_strlit("hires-bitmap");
    reveal_strlit("multicolour-bitmap");
    reveal_strlit("lores-pal");
    reveal_strlit("lores-ntsc");
    reveal_strlit("hires-pal");
    reveal_strlit("hires-ntsc");
    let c = commodore_c64::machine_view();
    assert(c.modes[0].name.len() != c.modes[1].name.len());
    let a = commodore_amiga_ocs::machine_view();
    assert(a.modes[0].name.len() != a.modes[1].name.len());
    assert(a.modes[0].name[0] != a.modes[2].name[0]);
    assert(a.modes[0].name.len() != a.modes[3].name.len());
    assert(a.modes[1].name.len() != a.modes[2].name.len());
    assert(a.modes[1].name[0] != a.modes[3].name[0]);
    assert(a.modes[2].name.len() != a.modes[3].name.len());
}

/// The geometry a converter relies on for one mode.
pub open spec fn geometry_ok(mode: super::ScreenModeView) -> bool {
    &&& mode.paper_width > 0
    &&& mode.paper_height > 0
    &&& mode.pixel_aspect.horizontal > 0
    &&& mode.pixel_aspect.vertical > 0
    &&& (mode.cell matches Some(cell) ==> {
        &&& cell.width > 0
        &&& cell.height > 0
        &&& cell.free_colours > 0
        &&& mode.paper_width % (cell.width as u16) == 0
        &&& mode.paper_height % (cell.height as u16) == 0
    })
}

/// Every mode has nonzero paper dimensions and pixel-aspect components; a
/// cell grid has nonzero components and divides the paper evenly.
pub proof fn lemma_geometry_consistent()
    ensures
        forall|m: int, i: int|
            0 <= m < machines_view().len() && 0 <= i < machines_view()[m].modes.len()
                ==> geometry_ok(#[trigger] machines_view()[m].modes[i]),
{
    assert(geometry_ok(sinclair_zx_spectrum::standard_mode())) by {
        assert(256u16 % 8u16 == 0);
        assert(192u16 % 8u16 == 0);
    }
    assert(geometry_ok(commodore_c64::hires_mode())) by {
        assert(320u16 % 8u16 == 0);
        assert(200u16 % 8u16 == 0);
    }
    assert(geometry_ok(commodore_c64::multicolour_mode())) by {
        assert(160u16 % 4u16 == 0);
        assert(200u16 % 8u16 == 0);
    }
    let ms = machines_view();
    assert forall|m: int, i: int|
        0 <= m < ms.len() && 0 <= i < ms[m].modes.len() implies geometry_ok(
        #[trigger] ms[m].modes[i],
    ) by {
        if m == 1 {
            assert(i == 0 || i == 1);
        }
    }
}

/// Cell-constrained modes carry a cell grid; planar modes carry a nonzero
/// plane budget instead, which `planes` reports.
pub proof fn lemma_constraint_shape_matches_mode_fields()
    ensures
        forall|m: int, i: int|
            0 <= m < machines_view().len() && 0 <= i < machines_view()[m].modes.len() ==> {
                let mode = #[trigger] machines_view()[m].modes[i];
                match mode.constraint {
                    ConstraintRule::Planar { max_planes } => {
                        &&& mode.cell is None
                        &&& max_planes > 0
                        &&& spec_planes(mode.constraint) == Some(max_planes)
                    },
                    _ => mode.cell is Some && spec_planes(mode.constraint) is None,
                }
            },
{
}

/// Fixed-palette machines: at least one interpretation, every
/// interpretation carries the same colour count, has a unique name and a
/// nonempty provenance, and the pinned default resolves. Gamut machines
/// have a nonzero gun depth and no default.
pub proof fn lemma_palettes_complete_and_defaults_pinned()
    ensures
        forall|m: int|
            0 <= m < machines_view().len() ==> match (#[trigger] machines_view()[m]).palette {
                PaletteModelView::Fixed(ps) => {
                    &&& ps.len() > 0
                    &&& forall|i: int|
                        0 <= i < ps.len() ==> ps[i].colours.len() == ps[0].colours.len()
                            && ps[i].source.len() > 0
                    &&& forall|i: int, j: int|
                        0 <= i < j < ps.len() ==> ps[i].name != ps[j].name
                    &&& machines_view()[m].default_interpretation matches Some(d)
                        && first_palette(machines_view()[m].palette, d) is Some
                },
                PaletteModelView::Gamut { bits_per_gun } => {
                    &&& bits_per_gun > 0
                    &&& machines_view()[m].default_interpretation is None
                },
            },
{
    reveal_strlit("emu198x-v1");
    reveal_strlit("fuse-v1");
    reveal_strlit("pepto-v1");
    reveal_strlit("colodore-v1");
    reveal_strlit("Emu198x/crates/common-sinclair-zx-spectrum/src/palette.rs");
    reveal_strlit("emulators/zx-spectrum/fuse-emulator-fuse/ui/gtk/gtkdisplay.c");
    reveal_strlit("Emu198x/crates/mos-vic-ii/src/palette.rs");
    reveal_strlit("assets/vice/vice/data/C64/pepto-pal.vpl");
    reveal_strlit("assets/vice/vice/data/C64/colodore.vpl");
    let s = sinclair_zx_spectrum::machine_view();
    let c = commodore_c64::machine_view();
    if let PaletteModelView::Fixed(ps) = s.palette {
        assert(ps[0].name.len() != ps[1].name.len());
        super::lemma_first_named_scan(ps, "emu198x-v1"@, 0);
    }
    if let PaletteModelView::Fixed(ps) = c.palette {
        assert(ps[0].name.len() != ps[1].name.len());
        assert(ps[0].name.len() != ps[2].name.len());
        assert(ps[1].name.len() != ps[2].name.len());
        super::lemma_first_named_scan(ps, "emu198x-v1"@, 0);
    }
}

/// No mode's pixel is more than twice as wide or as tall as the machine's
/// single-width pixel.
pub proof fn lemma_pixel_aspects_at_most_two()
    ensures
        forall|m: int, i: int|
            0 <= m < machines_view().len() && 0 <= i < machines_view()[m].modes.len() ==> {
                let a = (#[trigger] machines_view()[m].modes[i]).pixel_aspect;
                1 <= a.horizontal <= 2 && 1 <= a.vertical <= 2
            },
{
    let ms = machines_view();
    assert forall|m: int, i: int| 0 <= m < ms.len() && 0 <= i < ms[m].modes.len() implies {
        let a = (#[trigger] ms[m].modes[i]).pixel_aspect;
        1 <= a.horizontal <= 2 && 1 <= a.vertical <= 2
    } by {
        if m == 1 {
            assert(i == 0 || i == 1);
        }
    }
}

} // verus!
