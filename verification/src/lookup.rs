//! Finding a component of a schema by its id and, where wanted, its kind.

use crate::config::{ComponentConfig, ComponentConfigView, ComponentKind, ComponentKindView, components_view};
use crate::text::same_text;
use vstd::prelude::*;

verus! {

/// The five kinds of component, without what they hold.
#[derive(Clone, Copy, Debug, PartialEq, Eq, Structural)]
pub enum KindTag {
    Number,
    Timer,
    Label,
    Image,
    ImageToggle,
}

/// The tag of a kind.
pub open spec fn tag_of(kind: ComponentKindView) -> KindTag {
    match kind {
        ComponentKindView::Number { .. } => KindTag::Number,
        ComponentKindView::Timer { .. } => KindTag::Timer,
        ComponentKindView::Label { .. } => KindTag::Label,
        ComponentKindView::Image { .. } => KindTag::Image,
        ComponentKindView::ImageToggle { .. } => KindTag::ImageToggle,
    }
}

/// The tag of a kind.
pub fn kind_tag(kind: &ComponentKind) -> (t: KindTag)
    ensures
        t == tag_of(kind@),
{
    match kind {
        ComponentKind::Number { .. } => KindTag::Number,
        ComponentKind::Timer { .. } => KindTag::Timer,
        ComponentKind::Label { .. } => KindTag::Label,
        ComponentKind::Image { .. } => KindTag::Image,
        ComponentKind::ImageToggle { .. } => KindTag::ImageToggle,
    }
}

/// Whether `c` has the id `id` and, where `want` names a kind, that kind.
pub open spec fn answers(c: ComponentConfigView, id: Seq<char>, want: Option<KindTag>) -> bool {
    c.id == id && (want matches Some(k) ==> tag_of(c.kind) == k)
}

/// Whether `i` is the place of the first component that answers.
pub open spec fn is_first_answer(
    cs: Seq<ComponentConfigView>,
    id: Seq<char>,
    want: Option<KindTag>,
    i: int,
) -> bool {
    &&& 0 <= i < cs.len()
    &&& answers(cs[i], id, want)
    &&& forall|j: int| 0 <= j < i ==> !answers(#[trigger] cs[j], id, want)
}

/// The place of the first component that answers, if any does.
pub open spec fn find_component(
    cs: Seq<ComponentConfigView>,
    id: Seq<char>,
    want: Option<KindTag>,
) -> Option<int> {
    if exists|i: int| is_first_answer(cs, id, want, i) {
        Some(choose|i: int| is_first_answer(cs, id, want, i))
    } else {
        None
    }
}

/// There is at most one first answer.
pub proof fn lemma_first_answer_unique(
    cs: Seq<ComponentConfigView>,
    id: Seq<char>,
    want: Option<KindTag>,
    i: int,
)
    requires
        is_first_answer(cs, id, want, i),
    ensures
        find_component(cs, id, want) == Some(i),
{
    let k = choose|k: int| is_first_answer(cs, id, want, k);
    if k < i {
        assert(!answers(cs[k], id, want));
    } else if i < k {
        assert(!answers(cs[i], id, want));
    }
}

/// Where no component answers, nothing is found.
pub proof fn lemma_no_answer(cs: Seq<ComponentConfigView>, id: Seq<char>, want: Option<KindTag>)
    requires
        forall|j: int| 0 <= j < cs.len() ==> !answers(#[trigger] cs[j], id, want),
    ensures
        find_component(cs, id, want) is None,
{
}

/// The place of the first component with the id `id` and, where `want`
/// names a kind, of that kind.
pub fn locate(components: &Vec<ComponentConfig>, id: &str, want: Option<KindTag>) -> (r: Option<
    usize,
>)
    ensures
        match r {
            Some(i) => i < components.len() && find_component(
                components_view(components@),
                id@,
                want,
            ) == Some(i as int),
            None => find_component(components_view(components@), id@, want) is None,
        },
{
    let ghost cs = components_view(components@);
    let mut i: usize = 0;
    while i < components.len()
        invariant
            i <= components.len(),
            cs == components_view(components@),
            forall|j: int| 0 <= j < i ==> !answers(#[trigger] cs[j], id@, want),
        decreases components.len() - i,
    {
        let c = &components[i];
        assert(cs[i as int] == c@);
        let kind_fits = match want {
            Some(k) => kind_tag(&c.kind) == k,
            None => true,
        };
        if kind_fits && same_text(c.id.as_str(), id) {
            proof {
                lemma_first_answer_unique(cs, id@, want, i as int);
            }
            return Some(i);
        }
        i += 1;
    }
    proof {
        lemma_no_answer(cs, id@, want);
    }
    None
}

} // verus!
