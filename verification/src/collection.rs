//! The trees that can be grown: the three that are always there and those
//! that were added.

use vstd::prelude::*;
use vstd::string::StringExecFns;
use vstd::set_lib::{lemma_int_range, lemma_len_subset, set_int_range};
use crate::number::{decimal, lemma_decimal_round_trip, push_decimal};
use crate::text::texts_of;
use crate::tree::{Tree, TreeView};

verus! {

/// The first of the trees that every collection starts with.
pub const DEFAULT_1: &'static str =
    "0000000000002000000000000020000000000000200000000000002000000000000020000000000000201e6e00000000201e6e00000000201e6e0000000020000000000000201e6e00000000201e6e00000000201e6e00000000201e6e00000000201e6e00000000200000000000002000000000000020321e000000002000000000000020000000000000200000000000002000000000000020321e00000000200000000000002000000000000020:default-1";

/// The second of the trees that every collection starts with.
pub const DEFAULT_2: &'static str =
    "00000000000020000000000000201e6e00000000200000000000002000000000000020000000000000201e6e00000000201e6e00000000201e6e000000002000000000000020000000000000201e6e00000000201e6e00000000201e6e0000000020000000000000201e6e00000000201e6e00000000201e6e00000000201e6e00000000201e6e00000000200000000000002000000000000020321e00000000200000000000002000000000000020:default-2";

/// The third of the trees that every collection starts with.
pub const DEFAULT_3: &'static str =
    "00000000000020000000000000201e6e00000000200000000000002000000000000020000000000000201e6e00000000201e6e00000000201e6e00ff00006f000000000000201e6e00ff00006f1e6e00ff00006f1e6e00000000201e6e00000000201e6e00ff00006f0000000000002000000000000020321e000000002000000000000020000000000000200000000000002000000000000020321e00000000200000000000002000000000000020:default-3";

/// Whether one of `trees` has the name `name`.
pub open spec fn is_taken(trees: Seq<TreeView>, name: Seq<char>) -> bool {
    exists|i: int| 0 <= i < trees.len() && (#[trigger] trees[i]).name == name
}

/// The `k`-th name that is tried for a tree called `name`: the name itself,
/// then the name with `-1` behind it, with `-2`, and so on.
pub open spec fn numbered(name: Seq<char>, k: nat) -> Seq<char> {
    if k == 0 {
        name
    } else {
        name + seq!['-'] + decimal(k)
    }
}

/// Whether the `k`-th name is the first that none of `trees` has.
pub open spec fn is_first_free(trees: Seq<TreeView>, name: Seq<char>, k: nat) -> bool {
    &&& !is_taken(trees, numbered(name, k))
    &&& forall|j: nat| j < k ==> is_taken(trees, #[trigger] numbered(name, j))
}

/// The number of the first name that none of `trees` has.
pub open spec fn free_number(trees: Seq<TreeView>, name: Seq<char>) -> nat {
    choose|k: nat| is_first_free(trees, name, k)
}

/// Only one number is that of the first free name.
pub proof fn lemma_first_free_is_unique(trees: Seq<TreeView>, name: Seq<char>, k: nat)
    requires
        is_first_free(trees, name, k),
    ensures
        free_number(trees, name) == k,
{
    let other = free_number(trees, name);
    assert(is_first_free(trees, name, other));
    if other < k {
        assert(is_taken(trees, numbered(name, other)));
    } else if k < other {
        assert(is_taken(trees, numbered(name, k)));
    }
}

/// The trees that the texts in `texts` are, in order. A text that is no tree
/// is passed over.
pub open spec fn imported(texts: Seq<Seq<char>>) -> Seq<TreeView>
    decreases texts.len(),
{
    if texts.len() == 0 {
        Seq::empty()
    } else {
        let before = imported(texts.drop_last());
        match Tree::import_spec(texts.last()) {
            Some(tree) => before.push(tree),
            None => before,
        }
    }
}

/// Whether a tree of this name is left out when a collection is saved.
pub open spec fn is_kept_out(name: Seq<char>) -> bool {
    name == "default"@ || name == "default-2"@ || name == "default-3"@
}

/// The text that `trees` are saved as: one line for each tree that is not
/// left out.
pub open spec fn saved(trees: Seq<TreeView>) -> Seq<char>
    decreases trees.len(),
{
    if trees.len() == 0 {
        Seq::empty()
    } else {
        let before = saved(trees.drop_last());
        if is_kept_out(trees.last().name) {
            before
        } else {
            before + trees.last().text() + seq!['\n']
        }
    }
}

/// Different numbers give different names.
pub proof fn lemma_numbered_differ(name: Seq<char>, j: nat, k: nat)
    requires
        j != k,
    ensures
        numbered(name, j) != numbered(name, k),
{
    lemma_decimal_round_trip(j);
    lemma_decimal_round_trip(k);
    if j != 0 && k != 0 {
        let a = numbered(name, j);
        let b = numbered(name, k);
        if a == b {
            assert(a.subrange(name.len() as int + 1, a.len() as int) =~= decimal(j));
            assert(b.subrange(name.len() as int + 1, b.len() as int) =~= decimal(k));
        }
    } else if j == 0 {
        assert(numbered(name, k).len() > name.len());
    } else {
        assert(numbered(name, j).len() > name.len());
    }
}

/// Numbers below `n` that are all different are at most `n`.
proof fn lemma_pigeonhole(holders: Seq<int>, n: int)
    requires
        0 <= n,
        holders.no_duplicates(),
        forall|k: int| 0 <= k < holders.len() ==> 0 <= #[trigger] holders[k] < n,
    ensures
        holders.len() <= n,
{
    holders.unique_seq_to_set();
    lemma_int_range(0, n);
    assert(holders.to_set().subset_of(set_int_range(0, n))) by {
        assert forall|a: int| holders.to_set().contains(a) implies set_int_range(0, n).contains(
            a,
        ) by {
            let k = choose|k: int| 0 <= k < holders.len() && holders[k] == a;
            assert(0 <= holders[k] < n);
        }
    }
    lemma_len_subset(holders.to_set(), set_int_range(0, n));
}

/// `trees` without the trees called `name`.
pub open spec fn erased(trees: Seq<TreeView>, name: Seq<char>) -> Seq<TreeView>
    decreases trees.len(),
{
    if trees.len() == 0 {
        Seq::empty()
    } else {
        let before = erased(trees.drop_last(), name);
        if trees.last().name == name {
            before
        } else {
            before.push(trees.last())
        }
    }
}

/// Whether `i` is the place of the last of `trees` that is called `name`.
pub open spec fn is_last_named(trees: Seq<TreeView>, name: Seq<char>, i: int) -> bool {
    &&& 0 <= i < trees.len()
    &&& trees[i].name == name
    &&& forall|j: int| i < j < trees.len() ==> (#[trigger] trees[j]).name != name
}

/// The texts of those of `trees` that `names` ask for, in the order of
/// `names`: for each name the last tree of that name, where there is one.
pub open spec fn exported(trees: Seq<TreeView>, names: Seq<Seq<char>>) -> Seq<Seq<char>>
    decreases names.len(),
{
    if names.len() == 0 {
        Seq::empty()
    } else {
        let before = exported(trees, names.drop_last());
        if is_taken(trees, names.last()) {
            before.push(
                trees[choose|i: int| is_last_named(trees, names.last(), i)].text(),
            )
        } else {
            before
        }
    }
}

/// The part of `order` that is listed where the first `head` and the last
/// `tail` places are asked for: the places that are among both.
pub open spec fn listed_spec(order: Seq<usize>, head: int, tail: int) -> Seq<usize> {
    let from = order.len() - tail;
    let to = if head < order.len() {
        head
    } else {
        order.len() as int
    };
    if from < to {
        order.subrange(from, to)
    } else {
        Seq::empty()
    }
}

/// The part of `order` that is listed where the first `head` and the last
/// `tail` places are asked for.
pub fn listed(order: &Vec<usize>, head: usize, tail: usize) -> (places: Vec<usize>)
    requires
        tail <= order@.len(),
    ensures
        places@ == listed_spec(order@, head as int, tail as int),
{
    let len = order.len();
    let from = len - tail;
    let to = if head < len {
        head
    } else {
        len
    };
    let mut places: Vec<usize> = Vec::new();
    if from < to {
        let mut cnt: usize = from;
        while cnt < to
            invariant
                from <= cnt <= to <= order@.len(),
                places@ == order@.subrange(from as int, cnt as int),
            decreases to - cnt,
        {
            places.push(order[cnt]);
            assert(places@ =~= order@.subrange(from as int, cnt + 1));
            cnt = cnt + 1;
        }
    }
    places
}

/// `rand::seq::SliceRandom::shuffle` with the generator of the running
/// thread: the same numbers, in any order.
#[verifier::external_body]
fn shuffle(order: &mut Vec<usize>)
    ensures
        final(order)@.to_multiset() == old(order)@.to_multiset(),
{
    rand::seq::SliceRandom::shuffle(order.as_mut_slice(), &mut rand::thread_rng())
}

/// The numbers below `n` in a random order.
pub fn random_order(n: usize) -> (order: Vec<usize>)
    ensures
        order@.len() == n,
        order@.to_multiset() == Seq::new(n as nat, |i: int| i as usize).to_multiset(),
        forall|k: int| 0 <= k < n ==> #[trigger] order@[k] < n,
{
    let mut order: Vec<usize> = Vec::new();
    let mut i: usize = 0;
    while i < n
        invariant
            i <= n,
            order@ == Seq::new(i as nat, |k: int| k as usize),
        decreases n - i,
    {
        order.push(i);
        assert(order@ =~= Seq::new((i + 1) as nat, |k: int| k as usize));
        i = i + 1;
    }
    let ghost plain = order@;
    shuffle(&mut order);
    proof {
        broadcast use vstd::seq_lib::group_to_multiset_ensures;

        assert(order@.to_multiset().len() == plain.to_multiset().len());
        assert forall|k: int| 0 <= k < n implies #[trigger] order@[k] < n by {
            assert(order@.to_multiset().count(order@[k]) > 0);
            assert(plain.to_multiset().count(order@[k]) > 0);
            assert(plain.contains(order@[k]));
        }
    }
    order
}

/// All the trees of a user.
pub struct TreeCollection {
    pub collection: Vec<Tree>,
}

impl View for TreeCollection {
    type V = Seq<TreeView>;

    open spec fn view(&self) -> Seq<TreeView> {
        Seq::new(self.collection@.len(), |i: int| self.collection@[i]@)
    }
}

impl TreeCollection {
    /// Whether every tree of the collection has 5 rows of 5 cells.
    pub open spec fn wf(&self) -> bool {
        forall|i: int| 0 <= i < self.collection@.len() ==> (#[trigger] self.collection@[i]).wf()
    }

    /// Whether every tree of the collection has 5 rows of 5 cells.
    pub fn is_wf(&self) -> (complete: bool)
        ensures
            complete == self.wf(),
    {
        let mut i: usize = 0;
        while i < self.collection.len()
            invariant
                i <= self.collection@.len(),
                forall|k: int| 0 <= k < i ==> (#[trigger] self.collection@[k]).wf(),
            decreases self.collection@.len() - i,
        {
            if !self.collection[i].is_wf() {
                return false;
            }
            i = i + 1;
        }
        true
    }

    /// Import `text` and add the tree to the collection, or the reason why
    /// it is no tree to `failed`.
    fn take_in(&mut self, failed: &mut Vec<String>, text: String)
        requires
            old(self).wf(),
        ensures
            final(self).wf(),
            match Tree::import_spec(text@) {
                Some(tree) => final(self)@ == old(self)@.push(tree) && final(failed)@ == old(
                    failed,
                )@,
                None => final(self)@ == old(self)@ && final(failed)@.len() == old(failed)@.len()
                    + 1 && final(failed)@.last()@ == "The tree does not respect the format"@
                    && final(failed)@.drop_last() == old(failed)@,
            },
    {
        let ghost before = self@;
        match Tree::import_tree(text) {
            Ok(tree) => {
                self.collection.push(tree);
                assert(self@ =~= before.push(tree@));
            },
            Err(error) => {
                failed.push(error);
                assert(failed@.drop_last() =~= old(failed)@);
            },
        }
    }

    /// The collection that a user starts with: the three trees that are
    /// always there, then the trees that the lines of `saved` are. The second
    /// result says for each line that is no tree why it is none.
    pub fn load(saved: &Vec<String>) -> (loaded: (TreeCollection, Vec<String>))
        ensures
            loaded.0.wf(),
            loaded.0@ == imported(seq![DEFAULT_1@, DEFAULT_2@, DEFAULT_3@] + texts_of(saved@)),
            loaded.0@.len() + loaded.1@.len() == 3 + saved@.len(),
            forall|i: int|
                0 <= i < loaded.1@.len() ==> (#[trigger] loaded.1@[i])@
                    == "The tree does not respect the format"@,
    {
        let ghost texts = seq![DEFAULT_1@, DEFAULT_2@, DEFAULT_3@] + texts_of(saved@);
        let mut trees = TreeCollection { collection: Vec::new() };
        let mut failed: Vec<String> = Vec::new();
        assert(trees@ =~= imported(texts.take(0)));
        assert(texts.take(1).drop_last() =~= texts.take(0));
        assert(texts.take(1).last() == DEFAULT_1@);
        trees.take_in(&mut failed, DEFAULT_1.to_owned());
        assert(trees@ == imported(texts.take(1)));
        assert(texts.take(2).drop_last() =~= texts.take(1));
        assert(texts.take(2).last() == DEFAULT_2@);
        trees.take_in(&mut failed, DEFAULT_2.to_owned());
        assert(trees@ == imported(texts.take(2)));
        assert(texts.take(3).drop_last() =~= texts.take(2));
        assert(texts.take(3).last() == DEFAULT_3@);
        trees.take_in(&mut failed, DEFAULT_3.to_owned());
        assert(trees@ == imported(texts.take(3)));
        let mut i: usize = 0;
        while i < saved.len()
            invariant
                i <= saved@.len(),
                texts == seq![DEFAULT_1@, DEFAULT_2@, DEFAULT_3@] + texts_of(saved@),
                trees.wf(),
                trees@ == imported(texts.take(i + 3)),
                trees@.len() + failed@.len() == i + 3,
                forall|k: int|
                    0 <= k < failed@.len() ==> (#[trigger] failed@[k])@
                        == "The tree does not respect the format"@,
            decreases saved@.len() - i,
        {
            assert(saved@[i as int]@ == texts[i + 3]);
            assert(texts.take(i + 4).drop_last() =~= texts.take(i + 3));
            let ghost had = failed@;
            trees.take_in(&mut failed, saved[i].clone());
            assert forall|k: int| 0 <= k < failed@.len() implies (#[trigger] failed@[k])@
                == "The tree does not respect the format"@ by {
                if failed@.len() > had.len() {
                    if k < had.len() {
                        assert(failed@.drop_last()[k] == had[k]);
                    }
                }
            }
            i = i + 1;
        }
        assert(texts.take(i + 3) =~= texts);
        (trees, failed)
    }

    /// The text that the collection is saved as: the trees as they are
    /// written, one on each line.
    pub fn save(&self) -> (text: String)
        requires
            self.wf(),
        ensures
            text@ == saved(self@),
    {
        let mut text = String::new();
        let mut i: usize = 0;
        while i < self.collection.len()
            invariant
                self.wf(),
                i <= self.collection@.len(),
                text@ == saved(self@.take(i as int)),
            decreases self.collection@.len() - i,
        {
            let tree = &self.collection[i];
            assert(self@.take(i + 1).drop_last() =~= self@.take(i as int));
            assert(self@.take(i + 1).last() == tree@);
            if !(tree.name == "default".to_owned() || tree.name == "default-2".to_owned()
                || tree.name == "default-3".to_owned()) {
                text.append(tree.to_string().as_str());
                text.push('\n');
            }
            i = i + 1;
        }
        assert(self@.take(i as int) =~= self@);
        text
    }

    /// The index of the last tree called `name`, if there is one: the tree
    /// that is meant where a name is given.
    pub fn chosen(&self, name: &String) -> (found: Option<usize>)
        ensures
            found is None ==> !is_taken(self@, name@),
            found matches Some(i) ==> is_last_named(self@, name@, i as int),
    {
        let mut found: Option<usize> = None;
        let mut i: usize = 0;
        while i < self.collection.len()
            invariant
                i <= self.collection@.len(),
                found is None ==> forall|k: int| 0 <= k < i ==> (#[trigger] self@[k]).name != name@,
                found matches Some(at) ==> at < i && self@[at as int].name == name@ && forall|
                    k: int,
                | at < k < i ==> (#[trigger] self@[k]).name != name@,
            decreases self.collection@.len() - i,
        {
            if self.collection[i].name == *name {
                found = Some(i);
            }
            i = i + 1;
        }
        found
    }

    /// Take every tree called `name` out of the collection.
    pub fn erase(&mut self, name: &String)
        ensures
            final(self)@ == erased(old(self)@, name@),
            old(self).wf() ==> final(self).wf(),
    {
        let mut kept: Vec<Tree> = Vec::new();
        let ghost all = self@;
        let ghost trees = self.collection@;
        let mut k: usize = 0;
        let len = self.collection.len();
        while self.collection.len() > 0
            invariant
                trees == old(self).collection@,
                trees.len() == len,
                all == old(self)@,
                k + self.collection@.len() == trees.len(),
                self.collection@ == trees.skip(k as int),
                Seq::new(kept@.len(), |i: int| kept@[i]@) == erased(all.take(k as int), name@),
                old(self).wf() ==> forall|i: int|
                    0 <= i < kept@.len() ==> (#[trigger] kept@[i]).wf(),
            decreases self.collection@.len(),
        {
            let ghost had = Seq::new(kept@.len(), |i: int| kept@[i]@);
            let tree = self.collection.remove(0);
            assert(tree == trees[k as int]);
            assert(self.collection@ =~= trees.skip(k + 1));
            assert(all.take(k + 1).drop_last() =~= all.take(k as int));
            assert(all.take(k + 1).last() == tree@);
            if tree.name != *name {
                kept.push(tree);
                assert(Seq::new(kept@.len(), |i: int| kept@[i]@) =~= had.push(tree@));
            }
            k = k + 1;
        }
        assert(all.take(k as int) =~= all);
        self.collection = kept;
        assert(self@ =~= erased(all, name@));
    }

    /// The texts of the trees that `names` ask for, in the order of `names`:
    /// for each name the last tree of that name, where there is one.
    pub fn export(&self, names: &Vec<String>) -> (texts: Vec<String>)
        requires
            self.wf(),
        ensures
            texts_of(texts@) == exported(self@, texts_of(names@)),
    {
        let mut texts: Vec<String> = Vec::new();
        let mut i: usize = 0;
        while i < names.len()
            invariant
                self.wf(),
                i <= names@.len(),
                texts_of(texts@) == exported(self@, texts_of(names@).take(i as int)),
            decreases names@.len() - i,
        {
            let ghost had = texts_of(texts@);
            let ghost asked = texts_of(names@);
            assert(asked.take(i + 1).drop_last() =~= asked.take(i as int));
            assert(asked.take(i + 1).last() == names@[i as int]@);
            match self.chosen(&names[i]) {
                Some(at) => {
                    assert(self@[at as int].name == names@[i as int]@);
                    let ghost pick = choose|k: int| is_last_named(self@, names@[i as int]@, k);
                    assert(is_last_named(self@, names@[i as int]@, at as int));
                    assert(pick == at) by {
                        if pick < at {
                            assert(self@[at as int].name != names@[i as int]@);
                        } else if at < pick {
                            assert(self@[pick].name != names@[i as int]@);
                        }
                    }
                    let text = self.collection[at].to_string();
                    texts.push(text);
                    assert(texts_of(texts@) =~= had.push(self@[at as int].text()));
                },
                None => {},
            }
            i = i + 1;
        }
        assert(texts_of(names@).take(i as int) =~= texts_of(names@));
        texts
    }

    /// The texts of all the trees of the collection, in order.
    pub fn export_all(&self) -> (texts: Vec<String>)
        requires
            self.wf(),
        ensures
            texts_of(texts@) == Seq::new(self@.len(), |i: int| self@[i].text()),
    {
        let mut texts: Vec<String> = Vec::new();
        let mut i: usize = 0;
        while i < self.collection.len()
            invariant
                self.wf(),
                i <= self.collection@.len(),
                texts_of(texts@) == Seq::new(i as nat, |k: int| self@[k].text()),
            decreases self.collection@.len() - i,
        {
            let ghost had = texts_of(texts@);
            let text = self.collection[i].to_string();
            assert(text@ == self@[i as int].text());
            texts.push(text);
            assert(texts_of(texts@) =~= had.push(self@[i as int].text()));
            assert(texts_of(texts@) =~= Seq::new((i + 1) as nat, |k: int| self@[k].text()));
            i = i + 1;
        }
        texts
    }

    /// The index of the first tree called `name`, if there is one.
    fn find(&self, name: &String) -> (found: Option<usize>)
        ensures
            found is None ==> !is_taken(self@, name@),
            found matches Some(i) ==> i < self@.len() && self@[i as int].name == name@,
    {
        let mut i: usize = 0;
        while i < self.collection.len()
            invariant
                i <= self.collection@.len(),
                forall|k: int| 0 <= k < i ==> (#[trigger] self@[k]).name != name@,
            decreases self.collection@.len() - i,
        {
            if self.collection[i].name == *name {
                return Some(i);
            }
            i = i + 1;
        }
        None
    }

    /// Add a tree to the tree collection, and be careful to not add a
    /// duplicate tree. If duped is true, the tree will be renamed to not
    /// collide with other trees: it gets the first of the names `name`,
    /// `name-1`, `name-2` and so on that no tree of the collection has.
    pub fn add_tree(&mut self, tree: String, duped: bool) -> (r: Result<(), String>)
        ensures
            old(self).wf() ==> final(self).wf(),
            match Tree::import_spec(tree@) {
                None => {
                    &&& r is Err
                    &&& r->Err_0@ == "The tree does not respect the format"@
                    &&& final(self)@ == old(self)@
                },
                Some(imported) => if !duped && is_taken(old(self)@, imported.name) {
                    &&& r is Err
                    &&& r->Err_0@ == "Duplicate name tree exists"@
                    &&& final(self)@ == old(self)@
                } else {
                    &&& r is Ok
                    &&& is_first_free(
                        old(self)@,
                        imported.name,
                        free_number(old(self)@, imported.name),
                    )
                    &&& final(self)@ == old(self)@.push(
                        TreeView {
                            picture: imported.picture,
                            name: numbered(
                                imported.name,
                                free_number(old(self)@, imported.name),
                            ),
                        },
                    )
                },
            },
    {
        let ghost text = tree@;
        let mut planted = match Tree::import_tree(tree) {
            Ok(planted) => planted,
            Err(error) => {
                return Err(error);
            },
        };
        let ghost name = planted.name@;
        let ghost picture = planted.picture();
        let ghost mut holders: Seq<int> = Seq::empty();
        let len = self.collection.len();
        let mut cnt: usize = 0;
        let mut new_name = planted.name.clone();
        loop
            invariant
                *self == *old(self),
                self@.len() == len,
                text == tree@,
                Tree::import_spec(text) == Some(TreeView { picture, name }),
                planted.wf(),
                planted@ == (TreeView { picture, name }),
                cnt == holders.len(),
                cnt <= self@.len(),
                cnt > 0 ==> duped,
                new_name@ == numbered(name, cnt as nat),
                forall|k: int|
                    0 <= k < holders.len() ==> 0 <= #[trigger] holders[k] < self@.len()
                        && self@[holders[k]].name == numbered(name, k as nat),
            ensures
                *self == *old(self),
                text == tree@,
                Tree::import_spec(text) == Some(TreeView { picture, name }),
                planted.wf(),
                planted@ == (TreeView { picture, name }),
                new_name@ == numbered(name, cnt as nat),
                is_first_free(self@, name, cnt as nat),
                cnt > 0 ==> duped,
            decreases self@.len() - cnt,
        {
            match self.find(&new_name) {
                None => {
                    assert forall|j: nat| j < cnt implies is_taken(
                        self@,
                        #[trigger] numbered(name, j),
                    ) by {
                        assert(self@[holders[j as int]].name == numbered(name, j));
                    }
                    break ;
                },
                Some(i) => {
                    if !duped {
                        assert(self@[i as int].name == name);
                        return Err("Duplicate name tree exists".to_owned());
                    }
                    proof {
                        let longer = holders.push(i as int);
                        assert forall|a: int, b: int|
                            0 <= a < longer.len() && 0 <= b < longer.len() && a != b implies
                            longer[a] != longer[b] by {
                            lemma_numbered_differ(name, a as nat, b as nat);
                        }
                        lemma_pigeonhole(longer, self@.len() as int);
                        holders = longer;
                    }
                    cnt = cnt + 1;
                    new_name = planted.name.clone();
                    new_name.push('-');
                    push_decimal(&mut new_name, cnt as u64);
                    assert(new_name@ =~= numbered(name, cnt as nat));
                },
            }
        }
        proof {
            lemma_first_free_is_unique(old(self)@, name, cnt as nat);
        }
        planted.name = new_name;
        self.collection.push(planted);
        assert(self@ =~= old(self)@.push(TreeView { picture, name: numbered(name, cnt as nat) }));

        Ok(())
    }
}

} // verus!
