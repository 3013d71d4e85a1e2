//! Metadata groups: the items of one library, kept free of duplicates, and
//! the collection of all groups, keyed by library.

use crate::error::{GroupError, GroupErrorView};
use crate::external_types::{fixup_external_type, resolve_external_types};
use crate::metadata::{metadata_views, Metadata, MetadataView, NamespaceMetadata, NamespaceView};
use crate::object_refs::{
    compute_types_without_obj_refs, identifier_set, reference_free_items, ItemIdView,
    ItemIdentifier,
};
use crate::sequences::lemma_push_to_set;
use crate::strings::{calc_crate_name, str_eq};
use vstd::prelude::*;

verus! {

/// The metadata of one library: its namespace and its items. No item occurs
/// twice, and every item belongs to the library.
#[derive(Debug)]
pub struct MetadataGroup {
    namespace: NamespaceMetadata,
    namespace_docstring: Option<String>,
    items: Vec<Metadata>,
}

/// The view of [`MetadataGroup`].
pub struct MetadataGroupView {
    pub namespace: NamespaceView,
    pub namespace_docstring: Option<Seq<char>>,
    pub items: Set<MetadataView>,
}

/// The view of an optional text.
pub open spec fn optional_string_view(text: Option<String>) -> Option<Seq<char>> {
    match text {
        Some(t) => Some(t@),
        None => None,
    }
}

impl View for MetadataGroup {
    type V = MetadataGroupView;

    closed spec fn view(&self) -> MetadataGroupView {
        MetadataGroupView {
            namespace: self.namespace@,
            namespace_docstring: optional_string_view(self.namespace_docstring),
            items: metadata_views(self.items@).to_set(),
        }
    }
}

impl MetadataGroupView {
    /// Every item belongs to the group's library, and there are finitely
    /// many.
    pub open spec fn wf(self) -> bool {
        &&& self.items.finite()
        &&& forall|item: MetadataView| #[trigger]
            self.items.contains(item) ==> item.crate_name() == self.namespace.crate_name
    }

    /// The group with one more item.
    pub open spec fn with_item(self, item: MetadataView) -> MetadataGroupView {
        MetadataGroupView { items: self.items.insert(item), ..self }
    }

    /// What becomes of adding `item`: it is refused where it belongs to
    /// another library or is present already, and joins the group otherwise.
    pub open spec fn add(self, item: MetadataView) -> Result<MetadataGroupView, GroupErrorView> {
        if item.crate_name() != self.namespace.crate_name {
            Err(
                GroupErrorView::ItemOutsideLibrary {
                    crate_name: item.crate_name(),
                    library: self.namespace.crate_name,
                },
            )
        } else if self.items.contains(item) {
            Err(GroupErrorView::DuplicateItem { item })
        } else {
            Ok(self.with_item(item))
        }
    }
}

/// The group of `namespace` without any item.
pub open spec fn empty_group(namespace: NamespaceView) -> MetadataGroupView {
    MetadataGroupView { namespace, namespace_docstring: None, items: Set::empty() }
}

impl MetadataGroup {
    /// No item occurs twice, and every item belongs to the group's library.
    pub closed spec fn wf(&self) -> bool {
        &&& metadata_views(self.items@).no_duplicates()
        &&& forall|i: int|
            0 <= i < self.items@.len() ==> (#[trigger] self.items@[i])@.crate_name()
                == self.namespace.crate_name@
    }

    /// A well-formed group has a well-formed view.
    pub proof fn lemma_view_wf(&self)
        requires
            self.wf(),
        ensures
            self@.wf(),
    {
        let views = metadata_views(self.items@);
        vstd::seq_lib::seq_to_set_is_finite(views);
        assert forall|item: MetadataView| #[trigger] self@.items.contains(item) implies item.crate_name()
            == self@.namespace.crate_name by {
            let i = choose|i: int| 0 <= i < views.len() && views[i] == item;
            assert(self.items@[i]@ == item);
        }
    }

    /// A group without items.
    pub fn new(namespace: NamespaceMetadata) -> (group: MetadataGroup)
        ensures
            group.wf(),
            group@ == empty_group(namespace@),
    {
        let group = MetadataGroup { namespace, namespace_docstring: None, items: Vec::new() };
        assert(metadata_views(group.items@).to_set() =~= Set::<MetadataView>::empty());
        group
    }

    /// The namespace of the library.
    pub fn namespace(&self) -> (namespace: &NamespaceMetadata)
        ensures
            namespace@ == self@.namespace,
    {
        &self.namespace
    }

    /// The documentation of the namespace, if it has any.
    pub fn namespace_docstring(&self) -> (docstring: &Option<String>)
        ensures
            optional_string_view(*docstring) == self@.namespace_docstring,
    {
        &self.namespace_docstring
    }

    /// Sets the documentation of the namespace.
    pub fn set_namespace_docstring(&mut self, docstring: Option<String>)
        requires
            old(self).wf(),
        ensures
            final(self).wf(),
            final(self)@ == (MetadataGroupView {
                namespace_docstring: optional_string_view(docstring),
                ..old(self)@
            }),
    {
        self.namespace_docstring = docstring;
    }

    /// The items, each once, in the order in which they were added.
    pub fn items(&self) -> (items: &Vec<Metadata>)
        requires
            self.wf(),
        ensures
            metadata_views(items@).to_set() == self@.items,
            metadata_views(items@).no_duplicates(),
    {
        &self.items
    }

    /// The number of items.
    pub fn len(&self) -> (n: usize)
        requires
            self.wf(),
        ensures
            n == self@.items.len(),
    {
        proof {
            metadata_views(self.items@).unique_seq_to_set();
        }
        self.items.len()
    }

    /// Whether an item structurally equal to `item` is present.
    pub fn contains(&self, item: &Metadata) -> (r: bool)
        ensures
            r == self@.items.contains(item@),
    {
        let mut i: usize = 0;
        while i < self.items.len()
            invariant
                i <= self.items@.len(),
                forall|k: int| 0 <= k < i ==> self.items@[k]@ != item@,
            decreases self.items@.len() - i,
        {
            if self.items[i].equals(item) {
                assert(metadata_views(self.items@)[i as int] == item@);
                return true;
            }
            i += 1;
        }
        assert(!metadata_views(self.items@).contains(item@));
        false
    }

    /// Adds `item` to the group. An item of another library is refused, and
    /// so is one that is present already; the group is then left as it was.
    pub fn add_item(&mut self, item: Metadata) -> (r: Result<(), GroupError>)
        requires
            old(self).wf(),
        ensures
            final(self).wf(),
            final(self).grown_from(*old(self)),
            match r {
                Ok(()) => old(self)@.add(item@) == Ok::<MetadataGroupView, GroupErrorView>(
                    final(self)@,
                ),
                Err(e) => old(self)@.add(item@) == Err::<MetadataGroupView, GroupErrorView>(e@)
                    && final(self)@ == old(self)@,
            },
    {
        assert(self.items@.take(self.items@.len() as int) =~= self.items@);
        let crate_name = calc_crate_name(item.mod_path());
        if !str_eq(crate_name, self.namespace.crate_name.as_str()) {
            return Err(
                GroupError::ItemOutsideLibrary {
                    crate_name: crate_name.to_owned(),
                    library: self.namespace.crate_name.clone(),
                },
            );
        }
        if self.contains(&item) {
            return Err(GroupError::DuplicateItem { item });
        }
        let ghost before = self.items@;
        self.items.push(item);
        proof {
            let earlier = metadata_views(before);
            let views = metadata_views(self.items@);
            assert(views =~= earlier.push(item@));
            lemma_push_to_set(earlier, item@);
            assert(views.to_set() =~= earlier.to_set().insert(item@));
            assert(self.items@.take(before.len() as int) =~= before);
        }
        Ok(())
    }

    /// This group came from `earlier` by adding items at the end.
    pub closed spec fn grown_from(&self, earlier: MetadataGroup) -> bool {
        &&& self.namespace@ == earlier.namespace@
        &&& optional_string_view(self.namespace_docstring) == optional_string_view(
            earlier.namespace_docstring,
        )
        &&& earlier.items@.len() <= self.items@.len()
        &&& self.items@.take(earlier.items@.len() as int) == earlier.items@
    }

    proof fn lemma_grown_from_itself(&self)
        ensures
            self.grown_from(*self),
    {
        assert(self.items@.take(self.items@.len() as int) =~= self.items@);
    }

    proof fn lemma_grown_further(&self, middle: MetadataGroup, earlier: MetadataGroup)
        requires
            self.grown_from(middle),
            middle.grown_from(earlier),
        ensures
            self.grown_from(earlier),
    {
        let n = earlier.items@.len() as int;
        let m = middle.items@.len() as int;
        assert(self.items@.take(n) =~= self.items@.take(m).take(n));
    }

    /// The number of items that the group holds, for a later
    /// [`MetadataGroup::truncate`].
    pub(crate) fn item_count(&self) -> (n: usize)
        ensures
            n == self.spec_item_count(),
    {
        self.items.len()
    }

    /// The number of items that the group holds.
    pub closed spec fn spec_item_count(&self) -> nat {
        self.items@.len()
    }

    /// Takes a group that has grown from `earlier` back to it.
    pub(crate) fn truncate(&mut self, n: usize, Ghost(earlier): Ghost<MetadataGroup>)
        requires
            old(self).wf(),
            old(self).grown_from(earlier),
            n == earlier.spec_item_count(),
        ensures
            final(self).wf(),
            final(self)@ == earlier@,
    {
        let ghost before = self.items@;
        self.items.truncate(n);
        proof {
            assert(self.items@ =~= earlier.items@);
            let views = metadata_views(self.items@);
            let longer = metadata_views(before);
            assert forall|i: int, j: int|
                0 <= i < views.len() && 0 <= j < views.len() && i != j implies views[i]
                != views[j] by {
                assert(views[i] == longer[i]);
                assert(views[j] == longer[j]);
            }
            assert forall|i: int| 0 <= i < self.items@.len() implies (#[trigger] self.items@[i])@.crate_name()
                == self.namespace.crate_name@ by {
                assert(self.items@[i] == before[i]);
            }
        }
    }
}

/// The groups of all libraries, each under its library's identifier.
#[derive(Debug)]
pub struct MetadataGroupMap {
    groups: Vec<MetadataGroup>,
}

/// The views of groups, in order.
pub open spec fn group_views(groups: Seq<MetadataGroup>) -> Seq<MetadataGroupView> {
    Seq::new(groups.len(), |i: int| groups[i]@)
}

/// The groups keyed by library; of two groups of one library the later one
/// counts.
pub open spec fn groups_by_crate(groups: Seq<MetadataGroupView>) -> Map<
    Seq<char>,
    MetadataGroupView,
>
    decreases groups.len(),
{
    if groups.len() == 0 {
        Map::empty()
    } else {
        groups_by_crate(groups.drop_last()).insert(
            groups.last().namespace.crate_name,
            groups.last(),
        )
    }
}

/// No two groups belong to the same library.
pub open spec fn distinct_crates(groups: Seq<MetadataGroupView>) -> bool {
    forall|i: int, j: int|
        0 <= i < groups.len() && 0 <= j < groups.len() && i != j ==> (#[trigger] groups[i]).namespace.crate_name
            != (#[trigger] groups[j]).namespace.crate_name
}

/// Every group stands under the identifier of its own library and holds
/// only items of that library.
pub open spec fn groups_wf(groups: Map<Seq<char>, MetadataGroupView>) -> bool {
    &&& groups.dom().finite()
    &&& forall|crate_name: Seq<char>| #[trigger]
        groups.contains_key(crate_name) ==> groups[crate_name].namespace.crate_name == crate_name
            && groups[crate_name].wf()
}

/// A library has an entry exactly when one of the groups belongs to it, and
/// there are finitely many entries.
pub proof fn lemma_groups_by_crate_domain(groups: Seq<MetadataGroupView>, crate_name: Seq<char>)
    ensures
        groups_by_crate(groups).contains_key(crate_name) <==> exists|i: int|
            0 <= i < groups.len() && (#[trigger] groups[i]).namespace.crate_name == crate_name,
        groups_by_crate(groups).dom().finite(),
    decreases groups.len(),
{
    if groups.len() > 0 {
        let shorter = groups.drop_last();
        lemma_groups_by_crate_domain(shorter, crate_name);
        if groups_by_crate(groups).contains_key(crate_name) {
            if groups.last().namespace.crate_name == crate_name {
                assert(groups[groups.len() - 1].namespace.crate_name == crate_name);
            } else {
                let i = choose|i: int|
                    0 <= i < shorter.len() && (#[trigger] shorter[i]).namespace.crate_name
                        == crate_name;
                assert(groups[i].namespace.crate_name == crate_name);
            }
        }
        if exists|i: int|
            0 <= i < groups.len() && (#[trigger] groups[i]).namespace.crate_name == crate_name {
            let i = choose|i: int|
                0 <= i < groups.len() && (#[trigger] groups[i]).namespace.crate_name == crate_name;
            if i < shorter.len() {
                assert(shorter[i].namespace.crate_name == crate_name);
            }
        }
    }
}

/// Where no two groups belong to the same library, each group is the entry
/// of its library.
pub proof fn lemma_groups_by_crate_value(groups: Seq<MetadataGroupView>, i: int)
    requires
        distinct_crates(groups),
        0 <= i < groups.len(),
    ensures
        groups_by_crate(groups).contains_key(groups[i].namespace.crate_name),
        groups_by_crate(groups)[groups[i].namespace.crate_name] == groups[i],
    decreases groups.len(),
{
    if i < groups.len() - 1 {
        let shorter = groups.drop_last();
        assert(groups[groups.len() - 1].namespace.crate_name != groups[i].namespace.crate_name);
        assert forall|a: int, b: int|
            0 <= a < shorter.len() && 0 <= b < shorter.len() && a != b implies (#[trigger] shorter[a]).namespace.crate_name
            != (#[trigger] shorter[b]).namespace.crate_name by {
            assert(shorter[a] == groups[a]);
            assert(shorter[b] == groups[b]);
        }
        lemma_groups_by_crate_value(shorter, i);
    }
}

/// The number of libraries is the number of groups.
pub proof fn lemma_groups_by_crate_len(groups: Seq<MetadataGroupView>)
    requires
        distinct_crates(groups),
    ensures
        groups_by_crate(groups).dom().finite(),
        groups_by_crate(groups).dom().len() == groups.len(),
    decreases groups.len(),
{
    if groups.len() > 0 {
        let shorter = groups.drop_last();
        let last = groups.last().namespace.crate_name;
        assert forall|a: int, b: int|
            0 <= a < shorter.len() && 0 <= b < shorter.len() && a != b implies (#[trigger] shorter[a]).namespace.crate_name
            != (#[trigger] shorter[b]).namespace.crate_name by {
            assert(shorter[a] == groups[a]);
            assert(shorter[b] == groups[b]);
        }
        lemma_groups_by_crate_len(shorter);
        lemma_groups_by_crate_domain(shorter, last);
        if groups_by_crate(shorter).contains_key(last) {
            let i = choose|i: int|
                0 <= i < shorter.len() && (#[trigger] shorter[i]).namespace.crate_name == last;
            assert(groups[i].namespace.crate_name == groups[groups.len() - 1].namespace.crate_name);
        }
        assert(groups_by_crate(groups).dom() =~= groups_by_crate(shorter).dom().insert(last));
    }
}

/// Replacing a group by one of the same library replaces its entry.
proof fn lemma_groups_replaced(groups: Seq<MetadataGroupView>, i: int, group: MetadataGroupView)
    requires
        distinct_crates(groups),
        0 <= i < groups.len(),
        group.namespace.crate_name == groups[i].namespace.crate_name,
    ensures
        groups_by_crate(groups.update(i, group)) == groups_by_crate(groups).insert(
            group.namespace.crate_name,
            group,
        ),
        distinct_crates(groups.update(i, group)),
{
    let after = groups.update(i, group);
    let key = group.namespace.crate_name;
    assert(distinct_crates(after)) by {
        assert forall|a: int, b: int|
            0 <= a < after.len() && 0 <= b < after.len() && a != b implies (#[trigger] after[a]).namespace.crate_name
            != (#[trigger] after[b]).namespace.crate_name by {
            assert(groups[a].namespace.crate_name != groups[b].namespace.crate_name);
        }
    }
    assert forall|k: Seq<char>|
        groups_by_crate(after).contains_key(k) == groups_by_crate(groups).insert(
            key,
            group,
        ).contains_key(k) by {
        lemma_groups_by_crate_domain(after, k);
        lemma_groups_by_crate_domain(groups, k);
        if groups_by_crate(after).contains_key(k) {
            let j = choose|j: int|
                0 <= j < after.len() && (#[trigger] after[j]).namespace.crate_name == k;
            assert(groups[j].namespace.crate_name == k);
        }
        if groups_by_crate(groups).contains_key(k) {
            let j = choose|j: int|
                0 <= j < groups.len() && (#[trigger] groups[j]).namespace.crate_name == k;
            assert(after[j].namespace.crate_name == k);
        }
        if k == key {
            assert(after[i].namespace.crate_name == k);
        }
    }
    assert forall|k: Seq<char>| groups_by_crate(after).contains_key(k) implies groups_by_crate(
        after,
    )[k] == groups_by_crate(groups).insert(key, group)[k] by {
        lemma_groups_by_crate_domain(after, k);
        let j = choose|j: int|
            0 <= j < after.len() && (#[trigger] after[j]).namespace.crate_name == k;
        lemma_groups_by_crate_value(after, j);
        assert(groups[j].namespace.crate_name == k);
        lemma_groups_by_crate_value(groups, j);
        if k == key {
            assert(after[i].namespace.crate_name == k);
            assert(j == i);
        }
    }
    assert(groups_by_crate(after) =~= groups_by_crate(groups).insert(key, group));
}

impl View for MetadataGroupMap {
    type V = Map<Seq<char>, MetadataGroupView>;

    closed spec fn view(&self) -> Map<Seq<char>, MetadataGroupView> {
        groups_by_crate(group_views(self.groups@))
    }
}

impl MetadataGroupMap {
    /// Every group is well-formed, and no two belong to the same library.
    pub closed spec fn wf(&self) -> bool {
        &&& forall|i: int| 0 <= i < self.groups@.len() ==> (#[trigger] self.groups@[i]).wf()
        &&& distinct_crates(group_views(self.groups@))
    }

    /// A well-formed collection has a well-formed view.
    pub proof fn lemma_view_wf(&self)
        requires
            self.wf(),
        ensures
            groups_wf(self@),
    {
        let views = group_views(self.groups@);
        assert forall|crate_name: Seq<char>| #[trigger]
            self@.contains_key(crate_name) implies self@[crate_name].namespace.crate_name
            == crate_name && self@[crate_name].wf() by {
            lemma_groups_by_crate_domain(views, crate_name);
            let i = choose|i: int|
                0 <= i < views.len() && (#[trigger] views[i]).namespace.crate_name == crate_name;
            lemma_groups_by_crate_value(views, i);
            assert(self.groups@[i].wf());
            self.groups@[i].lemma_view_wf();
        }
        lemma_groups_by_crate_len(views);
    }

    /// The collection without any group.
    pub fn new() -> (map: MetadataGroupMap)
        ensures
            map.wf(),
            map@ == Map::<Seq<char>, MetadataGroupView>::empty(),
    {
        MetadataGroupMap { groups: Vec::new() }
    }

    /// The number of libraries.
    pub fn len(&self) -> (n: usize)
        requires
            self.wf(),
        ensures
            n == self@.dom().len(),
    {
        proof {
            lemma_groups_by_crate_len(group_views(self.groups@));
        }
        self.groups.len()
    }

    /// Where the group of the library `crate_name` stands.
    fn position(&self, crate_name: &str) -> (found: Option<usize>)
        ensures
            match found {
                Some(i) => i < self.groups@.len() && self.groups@[i as int]@.namespace.crate_name
                    == crate_name@,
                None => forall|i: int|
                    0 <= i < self.groups@.len() ==> (#[trigger] self.groups@[i])@.namespace.crate_name
                        != crate_name@,
            },
    {
        let mut i: usize = 0;
        while i < self.groups.len()
            invariant
                i <= self.groups@.len(),
                forall|k: int|
                    0 <= k < i ==> (#[trigger] self.groups@[k])@.namespace.crate_name != crate_name@,
            decreases self.groups@.len() - i,
        {
            if str_eq(self.groups[i].namespace.crate_name.as_str(), crate_name) {
                return Some(i);
            }
            i += 1;
        }
        None
    }

    /// Whether a namespace was declared for the library `crate_name`.
    pub fn contains_key(&self, crate_name: &str) -> (r: bool)
        ensures
            r == self@.contains_key(crate_name@),
    {
        let found = self.position(crate_name);
        proof {
            let views = group_views(self.groups@);
            lemma_groups_by_crate_domain(views, crate_name@);
            match found {
                Some(i) => {
                    assert(views[i as int].namespace.crate_name == crate_name@);
                },
                None => {
                    assert forall|i: int| 0 <= i < views.len() implies (#[trigger] views[i]).namespace.crate_name
                        != crate_name@ by {
                        assert(self.groups@[i]@.namespace.crate_name != crate_name@);
                    }
                },
            }
        }
        found.is_some()
    }

    /// The group of the library `crate_name`.
    pub fn get(&self, crate_name: &str) -> (group: Option<&MetadataGroup>)
        requires
            self.wf(),
        ensures
            match group {
                Some(g) => self@.contains_key(crate_name@) && self@[crate_name@] == g@ && g.wf(),
                None => !self@.contains_key(crate_name@),
            },
    {
        let found = self.position(crate_name);
        proof {
            let views = group_views(self.groups@);
            lemma_groups_by_crate_domain(views, crate_name@);
            match found {
                Some(i) => {
                    assert(views[i as int].namespace.crate_name == crate_name@);
                    lemma_groups_by_crate_value(views, i as int);
                },
                None => {
                    assert forall|i: int| 0 <= i < views.len() implies (#[trigger] views[i]).namespace.crate_name
                        != crate_name@ by {
                        assert(self.groups@[i]@.namespace.crate_name != crate_name@);
                    }
                },
            }
        }
        match found {
            Some(i) => Some(&self.groups[i]),
            None => None,
        }
    }

    /// Puts `group` under its library's identifier, in place of any group
    /// that stood there.
    pub fn insert(&mut self, group: MetadataGroup)
        requires
            old(self).wf(),
            group.wf(),
        ensures
            final(self).wf(),
            final(self)@ == old(self)@.insert(group@.namespace.crate_name, group@),
    {
        let ghost before = group_views(self.groups@);
        let ghost key = group@.namespace.crate_name;
        match self.position(group.namespace.crate_name.as_str()) {
            Some(i) => {
                self.groups.set(i, group);
                proof {
                    assert(group_views(self.groups@) =~= before.update(i as int, group@));
                    lemma_groups_replaced(before, i as int, group@);
                }
            },
            None => {
                self.groups.push(group);
                proof {
                    assert(group_views(self.groups@) =~= before.push(group@));
                    assert(before.push(group@).drop_last() =~= before);
                    assert forall|i: int| 0 <= i < before.len() implies (#[trigger] before[i]).namespace.crate_name
                        != key by {
                        assert(old(self).groups@[i]@.namespace.crate_name != key);
                    }
                }
            },
        }
    }

    /// The groups, one for each library.
    pub fn groups(&self) -> (groups: &Vec<MetadataGroup>)
        requires
            self.wf(),
        ensures
            groups_by_crate(group_views(groups@)) == self@,
            distinct_crates(group_views(groups@)),
            forall|i: int| 0 <= i < groups@.len() ==> (#[trigger] groups@[i]).wf(),
    {
        &self.groups
    }

    /// The groups, one for each library.
    pub fn into_groups(self) -> (groups: Vec<MetadataGroup>)
        requires
            self.wf(),
        ensures
            groups_by_crate(group_views(groups@)) == self@,
            distinct_crates(group_views(groups@)),
            forall|i: int| 0 <= i < groups@.len() ==> (#[trigger] groups@[i]).wf(),
    {
        self.groups
    }

    /// Where the group of the library `crate_name` stands.
    fn find(&self, crate_name: &str) -> (found: Option<usize>)
        requires
            self.wf(),
        ensures
            match found {
                Some(i) => i < self.groups@.len() && self@.contains_key(crate_name@)
                    && self@[crate_name@] == self.groups@[i as int]@
                    && self.groups@[i as int]@.namespace.crate_name == crate_name@,
                None => !self@.contains_key(crate_name@),
            },
    {
        let found = self.position(crate_name);
        proof {
            let views = group_views(self.groups@);
            lemma_groups_by_crate_domain(views, crate_name@);
            match found {
                Some(i) => {
                    assert(views[i as int].namespace.crate_name == crate_name@);
                    lemma_groups_by_crate_value(views, i as int);
                },
                None => {
                    assert forall|i: int| 0 <= i < views.len() implies (#[trigger] views[i]).namespace.crate_name
                        != crate_name@ by {
                        assert(self.groups@[i]@.namespace.crate_name != crate_name@);
                    }
                },
            }
        }
        found
    }

    /// Adds `item` to the group at `index`: see [`MetadataGroup::add_item`].
    fn add_at(&mut self, index: usize, item: Metadata) -> (r: Result<(), GroupError>)
        requires
            old(self).wf(),
            index < old(self).groups@.len(),
        ensures
            final(self).wf(),
            final(self).grown_from(*old(self)),
            match r {
                Ok(()) => old(self).groups@[index as int]@.add(item@) == Ok::<
                    MetadataGroupView,
                    GroupErrorView,
                >(final(self).groups@[index as int]@) && final(self)@ == old(self)@.insert(
                    old(self).groups@[index as int]@.namespace.crate_name,
                    final(self).groups@[index as int]@,
                ),
                Err(e) => old(self).groups@[index as int]@.add(item@) == Err::<
                    MetadataGroupView,
                    GroupErrorView,
                >(e@) && final(self)@ == old(self)@,
            },
    {
        let ghost before = group_views(self.groups@);
        let ghost key = self.groups@[index as int]@.namespace.crate_name;
        let r = self.groups[index].add_item(item);
        proof {
            let after = group_views(self.groups@);
            let group = self.groups@[index as int]@;
            assert(after =~= before.update(index as int, group));
            assert(group.namespace == before[index as int].namespace);
            assert forall|i: int| 0 <= i < self.groups@.len() implies (#[trigger] self.groups@[i]).grown_from(
                old(self).groups@[i],
            ) by {
                if i != index {
                    old(self).groups@[i].lemma_grown_from_itself();
                }
            }
            lemma_groups_replaced(before, index as int, group);
            if r is Err {
                assert(after =~= before);
            }
        }
        r
    }

    /// The number of items of each group, for a later
    /// [`MetadataGroupMap::rollback`].
    fn item_counts(&self) -> (counts: Vec<usize>)
        ensures
            counts@.len() == self.groups@.len(),
            forall|i: int|
                0 <= i < counts@.len() ==> counts@[i] == (#[trigger] self.groups@[i]).spec_item_count(),
    {
        let mut counts: Vec<usize> = Vec::new();
        let mut i: usize = 0;
        while i < self.groups.len()
            invariant
                i <= self.groups@.len(),
                counts@.len() == i,
                forall|k: int|
                    0 <= k < i ==> counts@[k] == (#[trigger] self.groups@[k]).spec_item_count(),
            decreases self.groups@.len() - i,
        {
            counts.push(self.groups[i].item_count());
            i += 1;
        }
        counts
    }

    /// Takes a collection that has grown from `earlier` back to it.
    fn rollback(&mut self, counts: &Vec<usize>, Ghost(earlier): Ghost<MetadataGroupMap>)
        requires
            old(self).wf(),
            old(self).grown_from(earlier),
            counts@.len() == earlier.groups@.len(),
            forall|i: int|
                0 <= i < counts@.len() ==> counts@[i] == (#[trigger] earlier.groups@[i]).spec_item_count(),
        ensures
            final(self).wf(),
            final(self)@ == earlier@,
    {
        let mut i: usize = 0;
        while i < self.groups.len()
            invariant
                i <= self.groups@.len(),
                self.groups@.len() == earlier.groups@.len(),
                counts@.len() == earlier.groups@.len(),
                forall|k: int|
                    0 <= k < counts@.len() ==> counts@[k] == (#[trigger] earlier.groups@[k]).spec_item_count(),
                forall|k: int| 0 <= k < self.groups@.len() ==> (#[trigger] self.groups@[k]).wf(),
                forall|k: int| 0 <= k < i ==> (#[trigger] self.groups@[k])@ == earlier.groups@[k]@,
                forall|k: int|
                    i <= k < self.groups@.len() ==> (#[trigger] self.groups@[k]).grown_from(
                        earlier.groups@[k],
                    ),
                forall|k: int|
                    0 <= k < self.groups@.len() ==> (#[trigger] self.groups@[k])@.namespace
                        == old(self).groups@[k]@.namespace,
            decreases self.groups@.len() - i,
        {
            let ghost before = self.groups@;
            assert(before[i as int].grown_from(earlier.groups@[i as int]));
            assert(before[i as int]@.namespace == earlier.groups@[i as int]@.namespace);
            self.groups[i].truncate(counts[i], Ghost(earlier.groups@[i as int]));
            assert forall|k: int| 0 <= k < self.groups@.len() implies (#[trigger] self.groups@[k])@.namespace
                == old(self).groups@[k]@.namespace by {
                if k != i {
                    assert(self.groups@[k] == before[k]);
                }
            }
            i += 1;
        }
        proof {
            let after = group_views(self.groups@);
            let start = group_views(old(self).groups@);
            assert(after =~= group_views(earlier.groups@));
            assert forall|a: int, b: int|
                0 <= a < after.len() && 0 <= b < after.len() && a != b implies (#[trigger] after[a]).namespace.crate_name
                != (#[trigger] after[b]).namespace.crate_name by {
                assert(start[a].namespace.crate_name != start[b].namespace.crate_name);
            }
        }
    }

    proof fn lemma_grown_from_itself(&self)
        ensures
            self.grown_from(*self),
    {
        assert forall|i: int| 0 <= i < self.groups@.len() implies (#[trigger] self.groups@[i]).grown_from(
            self.groups@[i],
        ) by {
            self.groups@[i].lemma_grown_from_itself();
        }
    }

    proof fn lemma_grown_further(&self, middle: MetadataGroupMap, earlier: MetadataGroupMap)
        requires
            self.grown_from(middle),
            middle.grown_from(earlier),
        ensures
            self.grown_from(earlier),
    {
        assert forall|i: int| 0 <= i < self.groups@.len() implies (#[trigger] self.groups@[i]).grown_from(
            earlier.groups@[i],
        ) by {
            assert(middle.groups@[i].grown_from(earlier.groups@[i]));
            self.groups@[i].lemma_grown_further(middle.groups@[i], earlier.groups@[i]);
        }
    }

    /// This collection came from `earlier` by adding items to its groups.
    pub closed spec fn grown_from(&self, earlier: MetadataGroupMap) -> bool {
        &&& self.groups@.len() == earlier.groups@.len()
        &&& forall|i: int|
            0 <= i < self.groups@.len() ==> (#[trigger] self.groups@[i]).grown_from(
                earlier.groups@[i],
            )
    }
}

/// The namespace that an item declares: a namespace declaration declares
/// its own, the marker of an interface definition file that of its library.
pub open spec fn declared_namespace(item: MetadataView) -> Option<NamespaceView> {
    match item {
        MetadataView::Namespace(meta) => Some(meta),
        MetadataView::UdlFile(meta) => Some(
            NamespaceView { crate_name: meta.mod_path, name: meta.namespace },
        ),
        _ => None,
    }
}

/// An empty group for every library that `items` declare a namespace for;
/// of two declarations for one library the later one counts.
pub open spec fn declared_groups(items: Seq<MetadataView>) -> Map<Seq<char>, MetadataGroupView>
    decreases items.len(),
{
    if items.len() == 0 {
        Map::empty()
    } else {
        let groups = declared_groups(items.drop_last());
        match declared_namespace(items.last()) {
            Some(namespace) => groups.insert(namespace.crate_name, empty_group(namespace)),
            None => groups,
        }
    }
}

/// What becomes of the groups when `item` is assigned: a namespace
/// declaration changes nothing; any other item must belong to a library
/// with a group, is resolved, and joins that group unless it is there
/// already.
pub open spec fn assign_item(
    groups: Map<Seq<char>, MetadataGroupView>,
    item: MetadataView,
    free: Set<ItemIdView>,
) -> Result<Map<Seq<char>, MetadataGroupView>, GroupErrorView> {
    if item is Namespace {
        Ok(groups)
    } else if !groups.contains_key(item.crate_name()) {
        Err(GroupErrorView::UnknownNamespace { crate_name: item.crate_name() })
    } else {
        match resolve_external_types(item, groups, free) {
            Ok(resolved) => match groups[item.crate_name()].add(resolved) {
                Ok(group) => Ok(groups.insert(item.crate_name(), group)),
                Err(e) => Err(e),
            },
            Err(e) => Err(e),
        }
    }
}

/// What becomes of the groups when `items` are assigned in order; the first
/// error ends it.
pub open spec fn assign_items(
    groups: Map<Seq<char>, MetadataGroupView>,
    items: Seq<MetadataView>,
    free: Set<ItemIdView>,
) -> Result<Map<Seq<char>, MetadataGroupView>, GroupErrorView>
    decreases items.len(),
{
    if items.len() == 0 {
        Ok(groups)
    } else {
        match assign_items(groups, items.drop_last(), free) {
            Ok(assigned) => assign_item(assigned, items.last(), free),
            Err(e) => Err(e),
        }
    }
}

/// An error among the first `n` items is the error of all of them.
pub proof fn lemma_assign_error_stays(
    groups: Map<Seq<char>, MetadataGroupView>,
    items: Seq<MetadataView>,
    free: Set<ItemIdView>,
    n: int,
)
    requires
        0 <= n <= items.len(),
        assign_items(groups, items.take(n), free) is Err,
    ensures
        assign_items(groups, items, free) == assign_items(groups, items.take(n), free),
    decreases items.len() - n,
{
    if n == items.len() {
        assert(items.take(n) == items);
    } else {
        assert(items.take(n + 1).drop_last() == items.take(n));
        lemma_assign_error_stays(groups, items, free, n + 1);
    }
}

impl MetadataGroupView {
    /// Duplicate rejection: an item that was added is refused when it is
    /// added again.
    pub proof fn lemma_add_twice(self, item: MetadataView)
        requires
            self.add(item) is Ok,
        ensures
            (self.add(item)->Ok_0).add(item) == Err::<MetadataGroupView, GroupErrorView>(
                GroupErrorView::DuplicateItem { item },
            ),
    {
    }

    /// Adding an item keeps a group well-formed.
    pub proof fn lemma_add_keeps_wf(self, item: MetadataView)
        requires
            self.wf(),
            self.add(item) is Ok,
        ensures
            (self.add(item)->Ok_0).wf(),
            (self.add(item)->Ok_0).namespace == self.namespace,
    {
    }
}

/// A library has a declared group exactly when some item declares a
/// namespace for it; the group stands under the library's identifier and is
/// empty.
pub proof fn lemma_declared_groups(items: Seq<MetadataView>, crate_name: Seq<char>)
    ensures
        declared_groups(items).contains_key(crate_name) <==> exists|i: int|
            0 <= i < items.len() && declared_namespace(#[trigger] items[i]) is Some
                && declared_namespace(items[i])->0.crate_name == crate_name,
        declared_groups(items).contains_key(crate_name) ==> declared_groups(
            items,
        )[crate_name].namespace.crate_name == crate_name && declared_groups(
            items,
        )[crate_name].items == Set::<MetadataView>::empty(),
    decreases items.len(),
{
    if items.len() > 0 {
        let shorter = items.drop_last();
        lemma_declared_groups(shorter, crate_name);
        if declared_groups(items).contains_key(crate_name) {
            if declared_namespace(items.last()) is Some && declared_namespace(
                items.last(),
            )->0.crate_name == crate_name {
                assert(declared_namespace(items[items.len() - 1]) is Some);
            } else {
                let i = choose|i: int|
                    0 <= i < shorter.len() && declared_namespace(#[trigger] shorter[i]) is Some
                        && declared_namespace(shorter[i])->0.crate_name == crate_name;
                assert(items[i] == shorter[i]);
            }
        }
        if exists|i: int|
            0 <= i < items.len() && declared_namespace(#[trigger] items[i]) is Some
                && declared_namespace(items[i])->0.crate_name == crate_name {
            let i = choose|i: int|
                0 <= i < items.len() && declared_namespace(#[trigger] items[i]) is Some
                    && declared_namespace(items[i])->0.crate_name == crate_name;
            if i < shorter.len() {
                assert(shorter[i] == items[i]);
            }
        }
    }
}

/// Assigning an item adds no group and removes none, leaves every namespace
/// as it is, and keeps the groups well-formed.
pub proof fn lemma_assign_item_keeps_libraries(
    groups: Map<Seq<char>, MetadataGroupView>,
    item: MetadataView,
    free: Set<ItemIdView>,
)
    requires
        assign_item(groups, item, free) is Ok,
    ensures
        (assign_item(groups, item, free)->Ok_0).dom() == groups.dom(),
        forall|crate_name: Seq<char>| #[trigger]
            groups.contains_key(crate_name) ==> (assign_item(
                groups,
                item,
                free,
            )->Ok_0)[crate_name].namespace == groups[crate_name].namespace,
        groups_wf(groups) ==> groups_wf(assign_item(groups, item, free)->Ok_0),
{
    let assigned = assign_item(groups, item, free)->Ok_0;
    if !(item is Namespace) {
        let key = item.crate_name();
        let resolved = resolve_external_types(item, groups, free)->Ok_0;
        assert(assigned.dom() =~= groups.dom());
        if groups_wf(groups) {
            groups[key].lemma_add_keeps_wf(resolved);
            assert(groups.contains_key(key));
        }
    }
}

/// Assigning items adds no group and removes none, leaves every namespace
/// as it is, and keeps the groups well-formed: every group holds only items
/// of its own library.
pub proof fn lemma_assign_keeps_libraries(
    groups: Map<Seq<char>, MetadataGroupView>,
    items: Seq<MetadataView>,
    free: Set<ItemIdView>,
)
    requires
        assign_items(groups, items, free) is Ok,
    ensures
        (assign_items(groups, items, free)->Ok_0).dom() == groups.dom(),
        forall|crate_name: Seq<char>| #[trigger]
            groups.contains_key(crate_name) ==> (assign_items(
                groups,
                items,
                free,
            )->Ok_0)[crate_name].namespace == groups[crate_name].namespace,
        groups_wf(groups) ==> groups_wf(assign_items(groups, items, free)->Ok_0),
    decreases items.len(),
{
    if items.len() > 0 {
        lemma_assign_keeps_libraries(groups, items.drop_last(), free);
        let before = assign_items(groups, items.drop_last(), free)->Ok_0;
        lemma_assign_item_keeps_libraries(before, items.last(), free);
        assert forall|crate_name: Seq<char>| #[trigger]
            groups.contains_key(crate_name) implies (assign_items(
            groups,
            items,
            free,
        )->Ok_0)[crate_name].namespace == groups[crate_name].namespace by {
            assert(before.contains_key(crate_name));
        }
    }
}

/// Namespace completeness: where an item belongs to a library without a
/// group, assigning the items fails.
pub proof fn lemma_unknown_namespace_fails(
    groups: Map<Seq<char>, MetadataGroupView>,
    items: Seq<MetadataView>,
    free: Set<ItemIdView>,
    n: int,
)
    requires
        0 <= n < items.len(),
        !(items[n] is Namespace),
        !groups.contains_key(items[n].crate_name()),
    ensures
        assign_items(groups, items, free) is Err,
{
    assert(items.take(n + 1).drop_last() == items.take(n));
    assert(items.take(n + 1).last() == items[n]);
    if assign_items(groups, items.take(n), free) is Ok {
        lemma_assign_keeps_libraries(groups, items.take(n), free);
        let before = assign_items(groups, items.take(n), free)->Ok_0;
        assert(!before.dom().contains(items[n].crate_name()));
    }
    lemma_assign_error_stays(groups, items, free, n + 1);
}

/// Namespace completeness: where the items before an item of a library
/// without a group can be assigned, the error names that library.
pub proof fn lemma_first_unknown_namespace(
    groups: Map<Seq<char>, MetadataGroupView>,
    items: Seq<MetadataView>,
    free: Set<ItemIdView>,
    n: int,
)
    requires
        0 <= n < items.len(),
        !(items[n] is Namespace),
        !groups.contains_key(items[n].crate_name()),
        assign_items(groups, items.take(n), free) is Ok,
    ensures
        assign_items(groups, items, free) == Err::<
            Map<Seq<char>, MetadataGroupView>,
            GroupErrorView,
        >(GroupErrorView::UnknownNamespace { crate_name: items[n].crate_name() }),
{
    assert(items.take(n + 1).drop_last() == items.take(n));
    assert(items.take(n + 1).last() == items[n]);
    lemma_assign_keeps_libraries(groups, items.take(n), free);
    let before = assign_items(groups, items.take(n), free)->Ok_0;
    assert(!before.dom().contains(items[n].crate_name()));
    lemma_assign_error_stays(groups, items, free, n + 1);
}

/// Creates an empty group for every library that `items` declare a
/// namespace for.
pub fn create_metadata_groups(items: &[Metadata]) -> (group_map: MetadataGroupMap)
    ensures
        group_map.wf(),
        group_map@ == declared_groups(metadata_views(items@)),
{
    let ghost views = metadata_views(items@);
    let mut group_map = MetadataGroupMap::new();
    let mut i: usize = 0;
    assert(views.take(0) == Seq::<MetadataView>::empty());
    while i < items.len()
        invariant
            i <= items@.len(),
            views == metadata_views(items@),
            group_map.wf(),
            group_map@ == declared_groups(views.take(i as int)),
        decreases items@.len() - i,
    {
        proof {
            assert(views.take(i + 1).drop_last() == views.take(i as int));
            assert(views.take(i + 1).last() == items@[i as int]@);
        }
        match &items[i] {
            Metadata::Namespace(namespace) => {
                group_map.insert(MetadataGroup::new(namespace.duplicate()));
            },
            Metadata::UdlFile(udl) => {
                let namespace = NamespaceMetadata {
                    crate_name: udl.mod_path.clone(),
                    name: udl.namespace.clone(),
                };
                group_map.insert(MetadataGroup::new(namespace));
            },
            _ => {},
        }
        i += 1;
    }
    assert(views.take(items@.len() as int) == views);
    group_map
}

fn is_namespace(item: &Metadata) -> (r: bool)
    ensures
        r == (item@ is Namespace),
{
    match item {
        Metadata::Namespace(_) => true,
        _ => false,
    }
}

/// Assigns `items` in order until the first error; the groups have then
/// grown by the items before it.
fn assign_all(
    group_map: &mut MetadataGroupMap,
    items: Vec<Metadata>,
    types_without_obj_refs: &Vec<ItemIdentifier>,
) -> (r: Result<(), GroupError>)
    requires
        old(group_map).wf(),
    ensures
        final(group_map).wf(),
        final(group_map).grown_from(*old(group_map)),
        match r {
            Ok(()) => assign_items(
                old(group_map)@,
                metadata_views(items@),
                identifier_set(types_without_obj_refs@),
            ) == Ok::<Map<Seq<char>, MetadataGroupView>, GroupErrorView>(final(group_map)@),
            Err(e) => assign_items(
                old(group_map)@,
                metadata_views(items@),
                identifier_set(types_without_obj_refs@),
            ) == Err::<Map<Seq<char>, MetadataGroupView>, GroupErrorView>(e@),
        },
{
    let ghost given = items@;
    let ghost views = metadata_views(items@);
    let ghost free = identifier_set(types_without_obj_refs@);
    let ghost start = group_map@;
    proof {
        group_map.lemma_grown_from_itself();
        assert(views.take(0) == Seq::<MetadataView>::empty());
    }
    for item in it: items.into_iter()
        invariant
            it.seq() == given,
            views == metadata_views(given),
            free == identifier_set(types_without_obj_refs@),
            start == old(group_map)@,
            group_map.wf(),
            group_map.grown_from(*old(group_map)),
            assign_items(start, views.take(it.index() as int), free) == Ok::<
                Map<Seq<char>, MetadataGroupView>,
                GroupErrorView,
            >(group_map@),
    {
        let ghost n = it.index() as int;
        let ghost before = *group_map;
        proof {
            assert(views.take(n + 1).drop_last() == views.take(n));
            assert(views.take(n + 1).last() == item@);
        }
        if !is_namespace(&item) {
            let crate_name = calc_crate_name(item.mod_path()).to_owned();
            let index = match group_map.find(crate_name.as_str()) {
                Some(index) => index,
                None => {
                    proof {
                        lemma_assign_error_stays(start, views, free, n + 1);
                    }
                    return Err(GroupError::UnknownNamespace { crate_name });
                },
            };
            let resolved = match fixup_external_type(item, group_map, types_without_obj_refs) {
                Ok(resolved) => resolved,
                Err(e) => {
                    proof {
                        lemma_assign_error_stays(start, views, free, n + 1);
                    }
                    return Err(e);
                },
            };
            match group_map.add_at(index, resolved) {
                Ok(()) => {
                    proof {
                        group_map.lemma_grown_further(before, *old(group_map));
                    }
                },
                Err(e) => {
                    proof {
                        group_map.lemma_grown_further(before, *old(group_map));
                        lemma_assign_error_stays(start, views, free, n + 1);
                    }
                    return Err(e);
                },
            }
        }
    }
    assert(views.take(given.len() as int) == views);
    Ok(())
}

/// Consumes the items into the previously created groups.
///
/// Which records and enums hold no object reference is decided once, over all
/// `items`. Each item that is no namespace declaration is then resolved and
/// added to the group of its library, in order. On the first error nothing
/// is kept: the groups are as they were before the call.
pub fn group_metadata(group_map: &mut MetadataGroupMap, items: Vec<Metadata>) -> (r: Result<
    (),
    GroupError,
>)
    requires
        old(group_map).wf(),
    ensures
        final(group_map).wf(),
        match r {
            Ok(()) => assign_items(
                old(group_map)@,
                metadata_views(items@),
                reference_free_items(metadata_views(items@)),
            ) == Ok::<Map<Seq<char>, MetadataGroupView>, GroupErrorView>(final(group_map)@),
            Err(e) => assign_items(
                old(group_map)@,
                metadata_views(items@),
                reference_free_items(metadata_views(items@)),
            ) == Err::<Map<Seq<char>, MetadataGroupView>, GroupErrorView>(e@)
                && final(group_map)@ == old(group_map)@,
        },
{
    let types_without_obj_refs = compute_types_without_obj_refs(items.as_slice());
    let counts = group_map.item_counts();
    let r = assign_all(group_map, items, &types_without_obj_refs);
    if r.is_err() {
        group_map.rollback(&counts, Ghost(*old(group_map)));
    }
    r
}

} // verus!
