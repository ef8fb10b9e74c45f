//! What the controller reports about the target page: the element that was picked, and the
//! snapshot of what is on screen.
//!
//! A coordinate is carried as the 64 bits of its IEEE 754 double: nothing here computes with it.
use vstd::prelude::*;

verus! {

/// An optional text as a sequence of characters.
pub open spec fn text_of(text: Option<String>) -> Option<Seq<char>> {
    match text {
        Some(s) => Some(s@),
        None => None,
    }
}

/// A copy of an optional text.
pub fn copy_text(text: &Option<String>) -> (copy: Option<String>)
    ensures
        text_of(copy) == text_of(*text),
{
    match text {
        Some(s) => Some(s.clone()),
        None => None,
    }
}

/// The element that the user picked in the target page.
#[derive(Debug)]
pub struct SelectedElement {
    pub tag: String,
    pub selector: String,
    pub text: String,
    pub role: Option<String>,
    pub name: String,
    pub fingerprint: String,
}

/// The texts of a [`SelectedElement`].
pub ghost struct SelectedView {
    pub tag: Seq<char>,
    pub selector: Seq<char>,
    pub text: Seq<char>,
    pub role: Option<Seq<char>>,
    pub name: Seq<char>,
    pub fingerprint: Seq<char>,
}

impl View for SelectedElement {
    type V = SelectedView;

    open spec fn view(&self) -> SelectedView {
        SelectedView {
            tag: self.tag@,
            selector: self.selector@,
            text: self.text@,
            role: text_of(self.role),
            name: self.name@,
            fingerprint: self.fingerprint@,
        }
    }
}

impl Clone for SelectedElement {
    fn clone(&self) -> (copy: Self)
        ensures
            copy@ == self@,
    {
        SelectedElement {
            tag: self.tag.clone(),
            selector: self.selector.clone(),
            text: self.text.clone(),
            role: copy_text(&self.role),
            name: self.name.clone(),
            fingerprint: self.fingerprint.clone(),
        }
    }
}

/// An optional picked element, by its texts.
pub open spec fn selected_of(selected: Option<SelectedElement>) -> Option<SelectedView> {
    match selected {
        Some(element) => Some(element@),
        None => None,
    }
}

/// A copy of an optional picked element.
pub fn copy_selected(selected: &Option<SelectedElement>) -> (copy: Option<SelectedElement>)
    ensures
        selected_of(copy) == selected_of(*selected),
{
    match selected {
        Some(element) => Some(element.clone()),
        None => None,
    }
}

/// A rectangle in the target page.
#[derive(Clone, Copy, Debug)]
pub struct Rect {
    pub x: u64,
    pub y: u64,
    pub width: u64,
    pub height: u64,
}

/// A clickable element of the target page.
#[derive(Debug)]
pub struct ElementPreview {
    pub rect: Rect,
    pub label: String,
    pub selector: String,
    pub selected: bool,
}

/// The contents of an [`ElementPreview`].
pub ghost struct PreviewView {
    pub rect: Rect,
    pub label: Seq<char>,
    pub selector: Seq<char>,
    pub selected: bool,
}

impl View for ElementPreview {
    type V = PreviewView;

    open spec fn view(&self) -> PreviewView {
        PreviewView {
            rect: self.rect,
            label: self.label@,
            selector: self.selector@,
            selected: self.selected,
        }
    }
}

impl Clone for ElementPreview {
    fn clone(&self) -> (copy: Self)
        ensures
            copy@ == self@,
    {
        ElementPreview {
            rect: self.rect,
            label: self.label.clone(),
            selector: self.selector.clone(),
            selected: self.selected,
        }
    }
}

/// The clickable elements of a snapshot, by their contents.
pub open spec fn previews_of(candidates: Seq<ElementPreview>) -> Seq<PreviewView> {
    candidates.map_values(|preview: ElementPreview| preview@)
}

/// A copy of a list of clickable elements.
fn copy_previews(candidates: &Vec<ElementPreview>) -> (copy: Vec<ElementPreview>)
    ensures
        previews_of(copy@) == previews_of(candidates@),
{
    let mut copy: Vec<ElementPreview> = Vec::new();
    let mut i: usize = 0;
    while i < candidates.len()
        invariant
            i <= candidates@.len(),
            previews_of(copy@) == previews_of(candidates@.take(i as int)),
        decreases candidates@.len() - i,
    {
        let ghost before = copy@;
        copy.push(candidates[i].clone());
        i += 1;
        assert(previews_of(copy@) =~= previews_of(before).push(candidates@[i - 1]@));
        assert(previews_of(candidates@.take(i as int)) =~= previews_of(
            candidates@.take(i - 1),
        ).push(candidates@[i - 1]@));
    }
    assert(candidates@.take(i as int) =~= candidates@);
    copy
}

/// What was on screen in the target page.
#[derive(Debug)]
pub struct PageSnapshot {
    pub url: String,
    pub title: String,
    pub image: Option<String>,
    pub width: u64,
    pub height: u64,
    pub scroll_x: u64,
    pub scroll_y: u64,
    pub selected_rect: Option<Rect>,
    pub candidates: Vec<ElementPreview>,
    pub captured_at: u64,
}

/// The contents of a [`PageSnapshot`].
pub ghost struct SnapshotView {
    pub url: Seq<char>,
    pub title: Seq<char>,
    pub image: Option<Seq<char>>,
    pub width: u64,
    pub height: u64,
    pub scroll_x: u64,
    pub scroll_y: u64,
    pub selected_rect: Option<Rect>,
    pub candidates: Seq<PreviewView>,
    pub captured_at: u64,
}

impl View for PageSnapshot {
    type V = SnapshotView;

    open spec fn view(&self) -> SnapshotView {
        SnapshotView {
            url: self.url@,
            title: self.title@,
            image: text_of(self.image),
            width: self.width,
            height: self.height,
            scroll_x: self.scroll_x,
            scroll_y: self.scroll_y,
            selected_rect: self.selected_rect,
            candidates: previews_of(self.candidates@),
            captured_at: self.captured_at,
        }
    }
}

impl Clone for PageSnapshot {
    fn clone(&self) -> (copy: Self)
        ensures
            copy@ == self@,
    {
        PageSnapshot {
            url: self.url.clone(),
            title: self.title.clone(),
            image: copy_text(&self.image),
            width: self.width,
            height: self.height,
            scroll_x: self.scroll_x,
            scroll_y: self.scroll_y,
            selected_rect: self.selected_rect,
            candidates: copy_previews(&self.candidates),
            captured_at: self.captured_at,
        }
    }
}

/// An optional snapshot, by its contents.
pub open spec fn snapshot_of(snapshot: Option<PageSnapshot>) -> Option<SnapshotView> {
    match snapshot {
        Some(page) => Some(page@),
        None => None,
    }
}

/// A copy of an optional snapshot.
pub fn copy_snapshot(snapshot: &Option<PageSnapshot>) -> (copy: Option<PageSnapshot>)
    ensures
        snapshot_of(copy) == snapshot_of(*snapshot),
{
    match snapshot {
        Some(page) => Some(page.clone()),
        None => None,
    }
}

/// An optional text, element or snapshot is shown where it is there.
pub proof fn law_what_is_there_is_shown(
    text: String,
    element: SelectedElement,
    snapshot: PageSnapshot,
)
    ensures
        text_of(Some(text)) == Some(text@),
        text_of(None) is None,
        selected_of(Some(element)) == Some(element@),
        selected_of(None) is None,
        snapshot_of(Some(snapshot)) == Some(snapshot@),
        snapshot_of(None) is None,
{
}

/// The contents of a picked element are all its fields.
pub proof fn law_element_shows_its_fields(element: SelectedElement)
    ensures
        element@.tag == element.tag@,
        element@.selector == element.selector@,
        element@.text == element.text@,
        element@.role == text_of(element.role),
        element@.name == element.name@,
        element@.fingerprint == element.fingerprint@,
{
}

/// The contents of a clickable element are all its fields.
pub proof fn law_preview_shows_its_fields(preview: ElementPreview)
    ensures
        preview@.rect == preview.rect,
        preview@.label == preview.label@,
        preview@.selector == preview.selector@,
        preview@.selected == preview.selected,
{
}

/// The contents of a snapshot are all its fields, the clickable elements in order.
pub proof fn law_snapshot_shows_its_fields(page: PageSnapshot)
    ensures
        page@.url == page.url@,
        page@.title == page.title@,
        page@.image == text_of(page.image),
        page@.width == page.width,
        page@.height == page.height,
        page@.scroll_x == page.scroll_x,
        page@.scroll_y == page.scroll_y,
        page@.selected_rect == page.selected_rect,
        page@.candidates.len() == page.candidates@.len(),
        forall|i: int|
            0 <= i < page.candidates@.len() ==> #[trigger] page@.candidates[i]
                == page.candidates@[i]@,
        page@.captured_at == page.captured_at,
{
}

} // verus!
