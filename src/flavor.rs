//! Features of individual menu bar apps that implement the plugin format.
use vstd::prelude::*;
use crate::attr_list::{to_map, AttrList};
use self::swiftbar::parsed_usize;

pub mod swiftbar;

pub use self::swiftbar::SwiftBar;

verus! {

/// A menu bar app that implements the plugin format.
#[derive(Debug, Clone, Copy)]
pub enum Flavor {
    /// The classic BitBar app, with the base features; also any host that is
    /// not recognized, and no host at all.
    BitBar,
    /// SwiftBar.
    SwiftBar(SwiftBar),
}

impl Flavor {
    /// The host that runs the plugin, given the value of the `SWIFTBAR_BUILD`
    /// environment variable: SwiftBar where that value is a build number,
    /// BitBar otherwise.
    pub fn check(swiftbar_build: Option<&str>) -> (r: Flavor)
        ensures
            match swiftbar_build {
                Some(b) => match parsed_usize(b@) {
                    Some(n) => r matches Flavor::SwiftBar(sb) && sb.build_number() == n,
                    None => r is BitBar,
                },
                None => r is BitBar,
            },
    {
        match SwiftBar::check(swiftbar_build) {
            Some(swiftbar) => Flavor::SwiftBar(swiftbar),
            None => Flavor::BitBar,
        }
    }

    /// The name of the host.
    pub fn to_string(&self) -> (r: String)
        ensures
            r@ == match self {
                Flavor::SwiftBar(_) => "SwiftBar"@,
                Flavor::BitBar => "BitBar"@,
            },
    {
        match self {
            Flavor::SwiftBar(_) => String::from_str("SwiftBar"),
            Flavor::BitBar => String::from_str("BitBar"),
        }
    }
}

/// Attributes that only one flavor of host understands.
#[derive(Debug)]
pub enum Attrs {
    SwiftBar(swiftbar::Attrs),
}

impl Attrs {
    /// `m` with this value's attributes added.
    pub open spec fn add_to(self, m: Map<Seq<char>, Seq<char>>) -> Map<Seq<char>, Seq<char>> {
        match self {
            Attrs::SwiftBar(a) => a.add_to(m),
        }
    }

    /// Adds this value's attributes to `list`.
    pub fn render(&self, list: &mut AttrList)
        requires
            old(list).wf(),
        ensures
            final(list).wf(),
            to_map(final(list)@) == self.add_to(to_map(old(list)@)),
    {
        match self {
            Attrs::SwiftBar(a) => a.render(list),
        }
    }
}

} // verus!
