//! What the renderer is handed: one display record per component, fully
//! resolved, and the background colour.

use crate::config::Opacity;
use vstd::prelude::*;

verus! {

/// What the renderer draws for one component. Fields that a kind does not
/// have are `None`.
#[derive(Debug, PartialEq, Eq)]
pub struct UiComponent {
    pub id: String,
    pub component_type: String,
    pub x: i32,
    pub y: i32,
    pub alignment: Option<String>,
    pub font_family: String,
    pub font_size: i32,
    pub font_color: String,
    pub text: Option<String>,
    pub source: Option<String>,
    pub width: Option<i32>,
    pub height: Option<i32>,
    pub opacity: Option<Opacity>,
    pub editable: bool,
}

/// A display record, with its texts as sequences of characters.
pub struct UiComponentView {
    pub id: Seq<char>,
    pub component_type: Seq<char>,
    pub x: i32,
    pub y: i32,
    pub alignment: Option<Seq<char>>,
    pub font_family: Seq<char>,
    pub font_size: i32,
    pub font_color: Seq<char>,
    pub text: Option<Seq<char>>,
    pub source: Option<Seq<char>>,
    pub width: Option<i32>,
    pub height: Option<i32>,
    pub opacity: Option<Opacity>,
    pub editable: bool,
}

/// The view of an optional string.
pub open spec fn opt_text(s: Option<String>) -> Option<Seq<char>> {
    match s {
        Some(t) => Some(t@),
        None => None,
    }
}

fn clone_opt_text(s: &Option<String>) -> (r: Option<String>)
    ensures
        opt_text(r) == opt_text(*s),
{
    match s {
        Some(t) => Some(t.clone()),
        None => None,
    }
}

impl View for UiComponent {
    type V = UiComponentView;

    open spec fn view(&self) -> UiComponentView {
        UiComponentView {
            id: self.id@,
            component_type: self.component_type@,
            x: self.x,
            y: self.y,
            alignment: opt_text(self.alignment),
            font_family: self.font_family@,
            font_size: self.font_size,
            font_color: self.font_color@,
            text: opt_text(self.text),
            source: opt_text(self.source),
            width: self.width,
            height: self.height,
            opacity: self.opacity,
            editable: self.editable,
        }
    }
}

impl Clone for UiComponent {
    fn clone(&self) -> (r: UiComponent)
        ensures
            r@ == self@,
    {
        UiComponent {
            id: self.id.clone(),
            component_type: self.component_type.clone(),
            x: self.x,
            y: self.y,
            alignment: clone_opt_text(&self.alignment),
            font_family: self.font_family.clone(),
            font_size: self.font_size,
            font_color: self.font_color.clone(),
            text: clone_opt_text(&self.text),
            source: clone_opt_text(&self.source),
            width: self.width,
            height: self.height,
            opacity: self.opacity,
            editable: self.editable,
        }
    }
}

/// The views of a sequence of display records.
pub open spec fn records_view(v: Seq<UiComponent>) -> Seq<UiComponentView> {
    Seq::new(v.len(), |i: int| v[i]@)
}

/// All that the renderer draws: the background colour and one record per
/// component, in the order of the configuration.
#[derive(Debug, PartialEq, Eq)]
pub struct UiSnapshot {
    pub background_color: String,
    pub components: Vec<UiComponent>,
}

/// A snapshot, with its texts as sequences of characters.
pub struct UiSnapshotView {
    pub background_color: Seq<char>,
    pub components: Seq<UiComponentView>,
}

impl View for UiSnapshot {
    type V = UiSnapshotView;

    open spec fn view(&self) -> UiSnapshotView {
        UiSnapshotView {
            background_color: self.background_color@,
            components: records_view(self.components@),
        }
    }
}

impl Clone for UiSnapshot {
    fn clone(&self) -> (r: UiSnapshot)
        ensures
            r@ == self@,
    {
        let mut components: Vec<UiComponent> = Vec::new();
        let mut i: usize = 0;
        while i < self.components.len()
            invariant
                i <= self.components.len(),
                components.len() == i,
                forall|k: int| 0 <= k < i ==> components@[k]@ == self.components@[k]@,
            decreases self.components.len() - i,
        {
            components.push(self.components[i].clone());
            i += 1;
        }
        assert(records_view(components@) =~= records_view(self.components@));
        UiSnapshot { background_color: self.background_color.clone(), components }
    }
}

} // verus!
