//! The replacer: an ordered list of rules, applied to the text of every
//! chapter of a book.

use vstd::prelude::*;
use mdbook::Config;
use crate::book::{item_at, item_view, items_view, Book, BookItem, ChapterView, ItemView};
use crate::config::{
    check_config, config_fault, configured_rules, get_replace_table, rules_value, ConfigError,
};
use crate::text::{replace, replaced};

verus! {

/// One rule: every occurrence of `from` becomes `to`.
#[derive(Debug, Clone, PartialEq, Eq)]
pub struct Replacement {
    pub from: String,
    pub to: String,
}

impl View for Replacement {
    type V = (Seq<char>, Seq<char>);

    open spec fn view(&self) -> (Seq<char>, Seq<char>) {
        (self.from@, self.to@)
    }
}

/// A list of rules as pairs of texts, `from` first, in the order of the list.
pub open spec fn rules_view(list: Seq<Replacement>) -> Seq<(Seq<char>, Seq<char>)> {
    list.map_values(|rule: Replacement| rule@)
}

/// `text` after every rule has been applied: the first rule works on `text`
/// itself, each later one on what the rules before it have made of it.
pub open spec fn applied(text: Seq<char>, rules: Seq<(Seq<char>, Seq<char>)>) -> Seq<char>
    decreases rules.len(),
{
    if rules.len() == 0 {
        text
    } else {
        replaced(applied(text, rules.drop_last()), rules.last().0, rules.last().1)
    }
}

/// `item` after the rules have been applied to it: a chapter has them applied
/// to its text and to every item nested below it, and keeps everything else;
/// any other item is unchanged.
pub open spec fn rewritten_item(item: ItemView, rules: Seq<(Seq<char>, Seq<char>)>) -> ItemView
    decreases item,
{
    match item {
        ItemView::Chapter(chapter) => ItemView::Chapter(
            ChapterView {
                content: applied(chapter.content, rules),
                sub_items: rewritten_items(chapter.sub_items, rules),
                ..chapter
            },
        ),
        other => other,
    }
}

/// A row of items after the rules have been applied to each of them.
pub open spec fn rewritten_items(items: Seq<ItemView>, rules: Seq<(Seq<char>, Seq<char>)>) -> Seq<
    ItemView,
>
    decreases items,
{
    Seq::new(
        items.len(),
        |i: int|
            if 0 <= i < items.len() {
                rewritten_item(items[i], rules)
            } else {
                arbitrary()
            },
    )
}

/// The preprocessor: the rules of one build, in the order in which they are
/// applied.
#[derive(Debug, Clone, PartialEq, Eq, Default)]
pub struct Replacer {
    pub list: Vec<Replacement>,
}

impl View for Replacer {
    type V = Seq<(Seq<char>, Seq<char>)>;

    open spec fn view(&self) -> Seq<(Seq<char>, Seq<char>)> {
        rules_view(self.list@)
    }
}

impl Replacer {
    /// The replacer that a configuration asks for: its rules where it has
    /// any, no rule where it says nothing about them.
    ///
    /// The configuration must be free of faults; `check_config` tests that,
    /// and `try_new` does both.
    pub fn new(config: &Config) -> (replacer: Replacer)
        requires
            config_fault(*config) is None,
        ensures
            replacer@ == configured_rules(*config),
    {
        match get_replace_table(config) {
            Some(list) => Replacer { list },
            None => Replacer { list: Vec::new() },
        }
    }

    /// The replacer that a configuration asks for, or the fault that the
    /// configuration has.
    pub fn try_new(config: &Config) -> (outcome: Result<Replacer, ConfigError>)
        ensures
            match outcome {
                Ok(replacer) => config_fault(*config) is None && replacer@ == configured_rules(
                    *config,
                ),
                Err(error) => config_fault(*config) == Some(error@),
            },
    {
        match check_config(config) {
            Ok(()) => Ok(Replacer::new(config)),
            Err(error) => Err(error),
        }
    }

    /// The name under which the preprocessor is configured.
    pub fn name(&self) -> (name: &'static str)
        ensures
            name@ == "replace"@,
    {
        "replace"
    }

    /// Whether the preprocessor works for a renderer: it does for every one.
    pub fn supports_renderer(&self, renderer: &str) -> (supported: bool)
        ensures
            supported,
    {
        true
    }

    /// Applies every rule to `text`, in order. Without rules the text comes
    /// back as it is.
    pub fn apply(&self, text: &str) -> (out: String)
        ensures
            out@ == applied(text@, self@),
            self@.len() == 0 ==> out@ == text@,
    {
        let mut out = String::from_str(text);
        let n = self.list.len();
        let mut i: usize = 0;
        while i < n
            invariant
                i <= n,
                n == self.list@.len(),
                out@ == applied(text@, self@.take(i as int)),
            decreases n - i,
        {
            let rule = &self.list[i];
            out = replace(out.as_str(), rule.from.as_str(), rule.to.as_str());
            proof {
                let next = self@.take(i + 1);
                assert(next.drop_last() =~= self@.take(i as int));
                assert(next.last() == rule@);
            }
            i += 1;
        }
        assert(self@.take(n as int) =~= self@);
        out
    }

    /// Applies the rules to the text of every chapter of `book`, at every
    /// depth. Nothing else in the book changes, and without rules nothing
    /// changes at all.
    pub fn run(&self, book: Book) -> (out: Book)
        ensures
            out@ == rewritten_items(book@, self@),
            self@.len() == 0 ==> out@ == book@,
    {
        let mut out = book;
        self.rewrite_items(&mut out.sections);
        proof {
            if self@.len() == 0 {
                assert(self@ =~= Seq::empty());
                lemma_no_rules_keep_items(book@);
            }
        }
        out
    }

    /// Applies the rules to one item in place.
    fn rewrite_item(&self, item: &mut BookItem)
        ensures
            final(item)@ == rewritten_item(old(item)@, self@),
        decreases *old(item),
    {
        match item {
            BookItem::Chapter(chapter) => {
                chapter.content = self.apply(chapter.content.as_str());
                self.rewrite_items(&mut chapter.sub_items);
            },
            _ => {},
        }
    }

    /// Applies the rules to each item of a row in place.
    fn rewrite_items(&self, items: &mut Vec<BookItem>)
        ensures
            items_view(final(items)@) == rewritten_items(items_view(old(items)@), self@),
        decreases *old(items),
    {
        let n = items.len();
        let mut i: usize = 0;
        while i < n
            invariant
                i <= n,
                n == items@.len(),
                items@.len() == old(items)@.len(),
                forall|k: int|
                    0 <= k < i ==> item_view(#[trigger] items@[k]) == rewritten_item(
                        item_view(old(items)@[k]),
                        self@,
                    ),
                forall|k: int| i <= k < n ==> items@[k] == old(items)@[k],
            decreases n - i,
        {
            self.rewrite_item(&mut items[i]);
            i += 1;
        }
        assert(items_view(items@) =~= rewritten_items(items_view(old(items)@), self@));
    }
}

/// With no rule, every text stays as it is, so a row of items does too: the
/// transformation is the identity, in structure and in text.
pub proof fn lemma_no_rules_keep_items(items: Seq<ItemView>)
    ensures
        rewritten_items(items, Seq::empty()) == items,
    decreases items,
{
    let rules = Seq::<(Seq<char>, Seq<char>)>::empty();
    assert forall|i: int| 0 <= i < items.len() implies rewritten_item(items[i], rules)
        == items[i] by {
        match items[i] {
            ItemView::Chapter(chapter) => {
                lemma_no_rules_keep_items(chapter.sub_items);
            },
            _ => {},
        }
    }
    assert(rewritten_items(items, rules) =~= items);
}

/// Rules work in sequence, not side by side: applying two lists one after
/// the other is applying the one list made of both, so each rule sees what
/// the rules before it have written.
pub proof fn lemma_rules_in_sequence(
    text: Seq<char>,
    first: Seq<(Seq<char>, Seq<char>)>,
    second: Seq<(Seq<char>, Seq<char>)>,
)
    ensures
        applied(text, first + second) == applied(applied(text, first), second),
    decreases second.len(),
{
    if second.len() == 0 {
        assert(first + second =~= first);
    } else {
        assert((first + second).drop_last() =~= first + second.drop_last());
        assert((first + second).last() == second.last());
        lemma_rules_in_sequence(text, first, second.drop_last());
    }
}

/// The transformation works item by item, at every depth: wherever a path
/// leads to an item of the tree, the same path leads in the transformed tree
/// to that item with the rules applied, and a path that leads nowhere still
/// leads nowhere. So no item is added, dropped or moved.
pub proof fn lemma_rewritten_at(
    items: Seq<ItemView>,
    rules: Seq<(Seq<char>, Seq<char>)>,
    path: Seq<int>,
)
    ensures
        item_at(rewritten_items(items, rules), path) == match item_at(items, path) {
            Some(item) => Some(rewritten_item(item, rules)),
            None => None,
        },
    decreases path.len(),
{
    if path.len() > 1 && 0 <= path[0] < items.len() {
        match items[path[0]] {
            ItemView::Chapter(chapter) => {
                lemma_rewritten_at(chapter.sub_items, rules, path.skip(1));
            },
            _ => {},
        }
    }
}

/// Every chapter is reached, however deep it lies: where a path leads to a
/// chapter, it leads in the transformed tree to a chapter with the rules
/// applied to its text, with as many items below it, and with its name,
/// number, paths and parent names untouched.
pub proof fn lemma_every_chapter_rewritten(
    items: Seq<ItemView>,
    rules: Seq<(Seq<char>, Seq<char>)>,
    path: Seq<int>,
    chapter: ChapterView,
)
    requires
        item_at(items, path) == Some(ItemView::Chapter(chapter)),
    ensures
        item_at(rewritten_items(items, rules), path) == Some(
            ItemView::Chapter(
                ChapterView {
                    content: applied(chapter.content, rules),
                    sub_items: rewritten_items(chapter.sub_items, rules),
                    ..chapter
                },
            ),
        ),
        rewritten_items(chapter.sub_items, rules).len() == chapter.sub_items.len(),
{
    lemma_rewritten_at(items, rules, path);
}

/// Items that are no chapters pass through untouched, whatever the rules:
/// where a path leads to such an item, it leads to the very same item in the
/// transformed tree.
pub proof fn lemma_other_items_kept(
    items: Seq<ItemView>,
    rules: Seq<(Seq<char>, Seq<char>)>,
    path: Seq<int>,
    item: ItemView,
)
    requires
        item_at(items, path) == Some(item),
        !(item is Chapter),
    ensures
        item_at(rewritten_items(items, rules), path) == Some(item),
{
    lemma_rewritten_at(items, rules, path);
}

/// A configuration that says nothing about rules has no fault and asks for no
/// rule, and transforming with what it asks for changes nothing.
pub proof fn lemma_absent_rules_keep_items(config: Config, items: Seq<ItemView>)
    requires
        rules_value(config) is None,
    ensures
        config_fault(config) is None,
        configured_rules(config) == Seq::<(Seq<char>, Seq<char>)>::empty(),
        rewritten_items(items, configured_rules(config)) == items,
{
    lemma_no_rules_keep_items(items);
}

} // verus!
