//! Names of product families.

use vstd::prelude::*;

use crate::paths;
use crate::product::ProductFamily;
use crate::vtec::Phenomenon;

verus! {

/// The name of a family in reports.
pub open spec fn family_text(family: ProductFamily) -> Seq<char> {
    match family {
        ProductFamily::Tornado => "tornado"@,
        ProductFamily::SevereThunderstorm => "severe-thunderstorm"@,
        ProductFamily::FlashFlood => "flash-flood"@,
        ProductFamily::Flood => "flood"@,
        ProductFamily::Marine => "marine"@,
        ProductFamily::Discussion => "discussion"@,
        ProductFamily::Forecast => "forecast"@,
        ProductFamily::Statement => "statement"@,
        ProductFamily::Hydrology => "hydrology"@,
        ProductFamily::Watch => "watch"@,
        ProductFamily::Advisory => "advisory"@,
        ProductFamily::Administrative => "administrative"@,
        ProductFamily::Unknown => "unknown"@,
    }
}

pub fn family_name(family: ProductFamily) -> (r: String)
    ensures
        r@ == family_text(family),
{
    let name: &str = match family {
        ProductFamily::Tornado => "tornado",
        ProductFamily::SevereThunderstorm => "severe-thunderstorm",
        ProductFamily::FlashFlood => "flash-flood",
        ProductFamily::Flood => "flood",
        ProductFamily::Marine => "marine",
        ProductFamily::Discussion => "discussion",
        ProductFamily::Forecast => "forecast",
        ProductFamily::Statement => "statement",
        ProductFamily::Hydrology => "hydrology",
        ProductFamily::Watch => "watch",
        ProductFamily::Advisory => "advisory",
        ProductFamily::Administrative => "administrative",
        ProductFamily::Unknown => "unknown",
    };
    name.to_owned()
}

/// The slug of a family in archive paths and queries.
pub open spec fn family_slug_text(family: ProductFamily) -> Seq<char> {
    match family {
        ProductFamily::Tornado => "tornado"@,
        ProductFamily::SevereThunderstorm => "severe_thunderstorm"@,
        ProductFamily::FlashFlood => "flash_flood"@,
        ProductFamily::Flood => "flood"@,
        ProductFamily::Marine => "marine"@,
        ProductFamily::Discussion => "discussion"@,
        ProductFamily::Forecast => "forecast"@,
        ProductFamily::Statement => "statement"@,
        ProductFamily::Hydrology => "hydrology"@,
        ProductFamily::Watch => "watch"@,
        ProductFamily::Advisory => "advisory"@,
        ProductFamily::Administrative => "administrative"@,
        ProductFamily::Unknown => "unknown"@,
    }
}

/// Stable lowercase directory and query slug for a product family; these
/// values name the family level of the archive directory layout.
pub fn family_slug(family: ProductFamily) -> (r: &'static str)
    ensures
        r@ == family_slug_text(family),
{
    match family {
        ProductFamily::Tornado => "tornado",
        ProductFamily::SevereThunderstorm => "severe_thunderstorm",
        ProductFamily::FlashFlood => "flash_flood",
        ProductFamily::Flood => "flood",
        ProductFamily::Marine => "marine",
        ProductFamily::Discussion => "discussion",
        ProductFamily::Forecast => "forecast",
        ProductFamily::Statement => "statement",
        ProductFamily::Hydrology => "hydrology",
        ProductFamily::Watch => "watch",
        ProductFamily::Advisory => "advisory",
        ProductFamily::Administrative => "administrative",
        ProductFamily::Unknown => "unknown",
    }
}

proof fn lemma_slugs(a: ProductFamily, b: ProductFamily)
    ensures
        a != b ==> family_slug_text(a) != family_slug_text(b),
        family_slug_text(a).len() > 0,
        forall|i: int|
            0 <= i < family_slug_text(a).len() ==> paths::is_name_char(
                #[trigger] family_slug_text(a)[i],
            ) && family_slug_text(a)[i] != '.',
{
    reveal_strlit("tornado");
    reveal_strlit("severe_thunderstorm");
    reveal_strlit("flash_flood");
    reveal_strlit("flood");
    reveal_strlit("marine");
    reveal_strlit("discussion");
    reveal_strlit("forecast");
    reveal_strlit("statement");
    reveal_strlit("hydrology");
    reveal_strlit("watch");
    reveal_strlit("advisory");
    reveal_strlit("administrative");
    reveal_strlit("unknown");
    let x = family_slug_text(a);
    let y = family_slug_text(b);
    if x == y {
        assert(x[0] == y[0] && x[1] == y[1] && x[2] == y[2] && x[3] == y[3] && x[4] == y[4]);
        assert(x.len() == y.len());
    }
}

/// Different families have different slugs.
pub proof fn slugs_differ(a: ProductFamily, b: ProductFamily)
    requires
        a != b,
    ensures
        family_slug_text(a) != family_slug_text(b),
{
    lemma_slugs(a, b);
}

/// A slug is a path component as it stands: it is not empty, holds only
/// characters that stand in file names, and none of them is a dot.
pub proof fn slug_is_a_component(family: ProductFamily)
    ensures
        paths::component(family_slug_text(family)) == family_slug_text(family),
        !family_slug_text(family).contains('.'),
{
    lemma_slugs(family, family);
    assert(paths::component(family_slug_text(family)) =~= family_slug_text(family));
}

/// The name of the family that a phenomenon belongs to by itself.
pub open spec fn phenomenon_text(p: Phenomenon) -> Option<Seq<char>> {
    match p {
        Phenomenon::Tornado => Some("tornado"@),
        Phenomenon::SevereThunderstorm => Some("severe-thunderstorm"@),
        Phenomenon::FlashFlood => Some("flash-flood"@),
        Phenomenon::Flood => Some("flood"@),
        Phenomenon::FloodForecastPoint => Some("flood"@),
        Phenomenon::Marine => Some("marine"@),
        Phenomenon::SmallCraft => Some("marine"@),
        Phenomenon::Gale => Some("marine"@),
        Phenomenon::Storm => Some("marine"@),
        Phenomenon::HurricaneForceWind => Some("marine"@),
        Phenomenon::Other(_, _) => None,
    }
}

pub fn family_name_for_phenomenon(p: Phenomenon) -> (r: Option<&'static str>)
    ensures
        match r {
            Some(s) => phenomenon_text(p) == Some(s@),
            None => phenomenon_text(p) is None,
        },
{
    match p {
        Phenomenon::Tornado => Some("tornado"),
        Phenomenon::SevereThunderstorm => Some("severe-thunderstorm"),
        Phenomenon::FlashFlood => Some("flash-flood"),
        Phenomenon::Flood | Phenomenon::FloodForecastPoint => Some("flood"),
        Phenomenon::Marine | Phenomenon::SmallCraft | Phenomenon::Gale | Phenomenon::Storm
        | Phenomenon::HurricaneForceWind => Some("marine"),
        Phenomenon::Other(_, _) => None,
    }
}

} // verus!
