//! The application's own icons, served ahead of the component library's assets.
use vstd::prelude::*;

use crate::text::{has_prefix, same_text, starts_with};

verus! {

/// The asset source of the application: its bundled icons first, then the component
/// library's assets.
#[derive(Clone, Copy, Debug)]
pub struct Assets;

/// An icon bundled with the application.
#[derive(Clone, Copy, Debug, PartialEq, Eq, Structural)]
pub enum BundledIcon {
    Codex,
    Air,
}

/// The asset path under which `icon` is served.
pub open spec fn icon_path(icon: BundledIcon) -> Seq<char> {
    match icon {
        BundledIcon::Codex => "icons/codex.svg"@,
        BundledIcon::Air => "icons/air.svg"@,
    }
}

/// The bundled icon served at `path`, if any.
pub open spec fn bundled_at(path: Seq<char>) -> Option<BundledIcon> {
    if path == icon_path(BundledIcon::Codex) {
        Some(BundledIcon::Codex)
    } else if path == icon_path(BundledIcon::Air) {
        Some(BundledIcon::Air)
    } else {
        None
    }
}

/// The paths of the bundled icons that a listing under `prefix` includes, in order.
pub open spec fn bundled_listing(prefix: Seq<char>) -> Seq<Seq<char>> {
    let codex = icon_path(BundledIcon::Codex);
    let air = icon_path(BundledIcon::Air);
    (if has_prefix(codex, prefix) { seq![codex] } else { Seq::empty() })
        + (if has_prefix(air, prefix) { seq![air] } else { Seq::empty() })
}

pub open spec fn texts(v: Seq<String>) -> Seq<Seq<char>> {
    v.map_values(|s: String| s@)
}

impl BundledIcon {
    /// The asset path of this icon.
    pub fn path(self) -> (r: &'static str)
        ensures
            r@ == icon_path(self),
    {
        match self {
            BundledIcon::Codex => "icons/codex.svg",
            BundledIcon::Air => "icons/air.svg",
        }
    }
}

impl Assets {
    /// The bundled icon served at `path`; `None` where loading falls through to the
    /// component library.
    pub fn bundled(&self, path: &str) -> (r: Option<BundledIcon>)
        ensures
            r == bundled_at(path@),
    {
        if same_text(path, BundledIcon::Codex.path()) {
            Some(BundledIcon::Codex)
        } else if same_text(path, BundledIcon::Air.path()) {
            Some(BundledIcon::Air)
        } else {
            None
        }
    }

    /// Completes a listing under `path`: after the component library's `paths` come the
    /// bundled icons whose path starts with `path`.
    pub fn extend_listing(&self, path: &str, paths: &mut Vec<String>)
        ensures
            texts(final(paths)@) == texts(old(paths)@) + bundled_listing(path@),
    {
        let ghost before = texts(paths@);
        let codex = BundledIcon::Codex.path();
        let air = BundledIcon::Air.path();
        let with_codex = starts_with(codex, path);
        if with_codex {
            paths.push(codex.to_owned());
        }
        let ghost middle = texts(paths@);
        assert(middle =~= before + (if with_codex { seq![codex@] } else { Seq::<Seq<char>>::empty() }));
        let with_air = starts_with(air, path);
        if with_air {
            paths.push(air.to_owned());
        }
        assert(texts(paths@) =~= middle + (if with_air { seq![air@] } else { Seq::<Seq<char>>::empty() }));
        assert(texts(paths@) =~= before + bundled_listing(path@));
    }
}

} // verus!
