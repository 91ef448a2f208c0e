//! The document tree: chapters, which carry text, and the structural items
//! that stand between them.

use vstd::prelude::*;
use std::path::PathBuf;

verus! {

/// `std::path::PathBuf`. A book only carries paths along; nothing here reads
/// one, so the type is declared and its values are left opaque.
#[verifier::external_type_specification]
#[verifier::external_body]
pub struct ExPathBuf(PathBuf);

/// A chapter: a text body, its metadata and the items nested below it.
#[derive(Debug, PartialEq, Eq, Default)]
pub struct Chapter {
    /// The chapter's title.
    pub name: String,
    /// The chapter's text.
    pub content: String,
    /// The section number, one component per level, if the chapter has one.
    pub number: Option<Vec<u32>>,
    /// The items nested below this chapter.
    pub sub_items: Vec<BookItem>,
    /// Where the chapter is rendered to; `None` for a draft.
    pub path: Option<PathBuf>,
    /// Where the chapter's text was read from, if it came from a file.
    pub source_path: Option<PathBuf>,
    /// The titles of the chapters above this one, outermost first.
    pub parent_names: Vec<String>,
}

/// One item of a book.
#[derive(Debug, PartialEq, Eq)]
pub enum BookItem {
    /// A chapter, the only kind of item that carries text.
    Chapter(Chapter),
    /// A separator between groups of chapters.
    Separator,
    /// The title of a part.
    PartTitle(String),
}

/// A book: its top-level items, in order.
#[derive(Debug, PartialEq, Eq, Default)]
pub struct Book {
    pub sections: Vec<BookItem>,
}

/// What a [`Chapter`] holds, as mathematical values.
pub struct ChapterView {
    pub name: Seq<char>,
    pub content: Seq<char>,
    pub number: Option<Seq<u32>>,
    pub sub_items: Seq<ItemView>,
    pub path: Option<PathBuf>,
    pub source_path: Option<PathBuf>,
    pub parent_names: Seq<Seq<char>>,
}

/// What a [`BookItem`] holds, as mathematical values.
pub enum ItemView {
    Chapter(ChapterView),
    Separator,
    PartTitle(Seq<char>),
}

/// The view of one item.
pub open spec fn item_view(item: BookItem) -> ItemView
    decreases item,
{
    match item {
        BookItem::Chapter(chapter) => ItemView::Chapter(chapter_view(chapter)),
        BookItem::Separator => ItemView::Separator,
        BookItem::PartTitle(title) => ItemView::PartTitle(title@),
    }
}

/// The view of one chapter.
pub open spec fn chapter_view(chapter: Chapter) -> ChapterView
    decreases chapter,
{
    ChapterView {
        name: chapter.name@,
        content: chapter.content@,
        number: match chapter.number {
            Some(number) => Some(number@),
            None => None,
        },
        sub_items: items_view(chapter.sub_items@),
        path: chapter.path,
        source_path: chapter.source_path,
        parent_names: chapter.parent_names@.map_values(|name: String| name@),
    }
}

/// The views of a row of items, in the same order.
pub open spec fn items_view(items: Seq<BookItem>) -> Seq<ItemView>
    decreases items,
{
    Seq::new(
        items.len(),
        |i: int|
            if 0 <= i < items.len() {
                item_view(items[i])
            } else {
                arbitrary()
            },
    )
}

impl View for BookItem {
    type V = ItemView;

    open spec fn view(&self) -> ItemView {
        item_view(*self)
    }
}

impl View for Chapter {
    type V = ChapterView;

    open spec fn view(&self) -> ChapterView {
        chapter_view(*self)
    }
}

impl View for Book {
    type V = Seq<ItemView>;

    open spec fn view(&self) -> Seq<ItemView> {
        items_view(self.sections@)
    }
}

/// The item that `path` leads to: `path[0]` is an index into `items`, each
/// further component an index into the items nested below the chapter that
/// the path has reached. `None` where the path is empty or leaves the tree.
pub open spec fn item_at(items: Seq<ItemView>, path: Seq<int>) -> Option<ItemView>
    decreases path.len(),
{
    if path.len() == 0 || !(0 <= path[0] < items.len()) {
        None
    } else if path.len() == 1 {
        Some(items[path[0]])
    } else {
        match items[path[0]] {
            ItemView::Chapter(chapter) => item_at(chapter.sub_items, path.skip(1)),
            _ => None,
        }
    }
}

} // verus!
