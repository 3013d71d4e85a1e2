//! Which records and enums hold no object handle anywhere in what they are
//! made of.
//!
//! The types of a record's fields may name other records and enums, and
//! these may name the first again. A record or enum is reference-free when
//! that can be shown in finitely many steps: it has a definition, none of the
//! types it is made of is an object, and every record, enum or external type
//! among them is itself reference-free. A type on a cycle, or one that
//! depends on something without a definition, is never reference-free.

use crate::metadata::{
    metadata_views, FieldMetadata, FieldView, Metadata, MetadataView, VariantView,
};
use crate::strings::str_eq;
use crate::types::{flatten_type, type_views, Type, TypeView};
use vstd::prelude::*;

verus! {

/// The key of a record or enum across all libraries.
#[derive(Debug, PartialEq, Eq, Hash, Clone)]
pub struct ItemIdentifier {
    mod_path: String,
    name: String,
}

/// The view of [`ItemIdentifier`].
pub struct ItemIdView {
    pub mod_path: Seq<char>,
    pub name: Seq<char>,
}

impl View for ItemIdentifier {
    type V = ItemIdView;

    closed spec fn view(&self) -> ItemIdView {
        ItemIdView { mod_path: self.mod_path@, name: self.name@ }
    }
}

/// The identifiers that a sequence of identifiers stands for, as a set.
pub open spec fn identifier_set(ids: Seq<ItemIdentifier>) -> Set<ItemIdView> {
    Set::new(|id: ItemIdView| exists|k: int| 0 <= k < ids.len() && #[trigger] ids[k]@ == id)
}

/// The record or enum that a type names, if it names one. An external type
/// names the item that it refers to.
pub open spec fn named_item(t: TypeView) -> Option<ItemIdView> {
    match t {
        TypeView::Record { mod_path, name } => Some(ItemIdView { mod_path, name }),
        TypeView::Enum { mod_path, name } => Some(ItemIdView { mod_path, name }),
        TypeView::External { mod_path, name, .. } => Some(ItemIdView { mod_path, name }),
        _ => None,
    }
}

/// Whether a single type brings an object handle with it, where `free` are
/// the items known to hold none: an object does, and so does a named item
/// outside `free`.
pub open spec fn holds_reference(t: TypeView, free: Set<ItemIdView>) -> bool {
    match t {
        TypeView::Object { .. } => true,
        TypeView::Record { mod_path, name } => !free.contains(ItemIdView { mod_path, name }),
        TypeView::Enum { mod_path, name } => !free.contains(ItemIdView { mod_path, name }),
        TypeView::External { mod_path, name, .. } => !free.contains(ItemIdView { mod_path, name }),
        _ => false,
    }
}

/// The types that the fields are made of, in order.
pub open spec fn field_types(fields: Seq<FieldView>) -> Seq<TypeView>
    decreases fields.len(),
{
    if fields.len() == 0 {
        Seq::empty()
    } else {
        field_types(fields.drop_last()) + flatten_type(fields.last().ty)
    }
}

/// The types that the fields of all variants are made of, in order.
pub open spec fn variant_types(variants: Seq<VariantView>) -> Seq<TypeView>
    decreases variants.len(),
{
    if variants.len() == 0 {
        Seq::empty()
    } else {
        variant_types(variants.drop_last()) + field_types(variants.last().fields)
    }
}

/// The identifier that an item defines: records and enums define one.
pub open spec fn defined_item(item: MetadataView) -> Option<ItemIdView> {
    match item {
        MetadataView::Record(meta) => Some(ItemIdView { mod_path: meta.mod_path, name: meta.name }),
        MetadataView::Enum(meta) => Some(ItemIdView { mod_path: meta.mod_path, name: meta.name }),
        _ => None,
    }
}

/// The types that a record or enum is made of.
pub open spec fn definition_types(item: MetadataView) -> Seq<TypeView> {
    match item {
        MetadataView::Record(meta) => field_types(meta.fields),
        MetadataView::Enum(meta) => variant_types(meta.variants),
        _ => Seq::empty(),
    }
}

/// The definition of `id` among `items`: the last record or enum that
/// defines it.
pub open spec fn definition_of(items: Seq<MetadataView>, id: ItemIdView) -> Option<MetadataView>
    decreases items.len(),
{
    if items.len() == 0 {
        None
    } else if defined_item(items.last()) == Some(id) {
        Some(items.last())
    } else {
        definition_of(items.drop_last(), id)
    }
}

/// One round of the analysis: the items with a definition none of whose
/// types holds a reference, given the items `known` to be reference-free.
pub open spec fn free_step(items: Seq<MetadataView>, known: Set<ItemIdView>) -> Set<ItemIdView> {
    Set::new(
        |id: ItemIdView|
            match definition_of(items, id) {
                Some(def) => forall|k: int|
                    0 <= k < definition_types(def).len() ==> !holds_reference(
                        #[trigger] definition_types(def)[k],
                        known,
                    ),
                None => false,
            },
    )
}

/// The items shown reference-free in at most `depth` rounds.
pub open spec fn free_within(items: Seq<MetadataView>, depth: nat) -> Set<ItemIdView>
    decreases depth,
{
    if depth == 0 {
        Set::empty()
    } else {
        free_step(items, free_within(items, (depth - 1) as nat))
    }
}

/// `id` is reference-free among `items`: some number of rounds shows it.
pub open spec fn is_reference_free(items: Seq<MetadataView>, id: ItemIdView) -> bool {
    exists|depth: nat| free_within(items, depth).contains(id)
}

/// All reference-free items.
pub open spec fn reference_free_items(items: Seq<MetadataView>) -> Set<ItemIdView> {
    Set::new(|id: ItemIdView| is_reference_free(items, id))
}

/// `from` is defined and one of its types names `to`.
pub open spec fn depends_on(items: Seq<MetadataView>, from: ItemIdView, to: ItemIdView) -> bool {
    match definition_of(items, from) {
        Some(def) => exists|k: int|
            0 <= k < definition_types(def).len() && named_item(
                #[trigger] definition_types(def)[k],
            ) == Some(to),
        None => false,
    }
}

/// Each item of `path` depends on the next one.
pub open spec fn is_dependency_path(items: Seq<MetadataView>, path: Seq<ItemIdView>) -> bool {
    forall|t: int| 0 <= t < path.len() - 1 ==> depends_on(items, #[trigger] path[t], path[t + 1])
}

/// `items[j]` is the definition of the identifier that it defines.
pub open spec fn is_definition_at(items: Seq<MetadataView>, j: int) -> bool {
    &&& 0 <= j < items.len()
    &&& defined_item(items[j]) is Some
    &&& forall|later: int|
        j < later < items.len() ==> defined_item(#[trigger] items[later]) != defined_item(items[j])
}

/// The item at a position that is its definition is the definition of the
/// identifier that it defines.
pub proof fn lemma_definition_at(items: Seq<MetadataView>, j: int)
    requires
        is_definition_at(items, j),
    ensures
        definition_of(items, defined_item(items[j])->0) == Some(items[j]),
    decreases items.len(),
{
    if j < items.len() - 1 {
        let shorter = items.drop_last();
        assert(defined_item(items[items.len() - 1]) != defined_item(items[j]));
        assert forall|later: int| j < later < shorter.len() implies defined_item(
            #[trigger] shorter[later],
        ) != defined_item(shorter[j]) by {
            assert(shorter[later] == items[later]);
        }
        lemma_definition_at(shorter, j);
    }
}

/// An identifier that no item defines has no definition.
pub proof fn lemma_no_definition(items: Seq<MetadataView>, id: ItemIdView)
    requires
        forall|j: int| 0 <= j < items.len() ==> defined_item(#[trigger] items[j]) != Some(id),
    ensures
        definition_of(items, id) is None,
    decreases items.len(),
{
    if items.len() > 0 {
        let shorter = items.drop_last();
        assert(defined_item(items[items.len() - 1]) != Some(id));
        assert forall|j: int| 0 <= j < shorter.len() implies defined_item(#[trigger] shorter[j])
            != Some(id) by {
            assert(shorter[j] == items[j]);
        }
        lemma_no_definition(shorter, id);
    }
}

/// An identifier with a definition is defined at some position.
pub proof fn lemma_definition_position(items: Seq<MetadataView>, id: ItemIdView) -> (j: int)
    requires
        definition_of(items, id) is Some,
    ensures
        is_definition_at(items, j),
        defined_item(items[j]) == Some(id),
        definition_of(items, id) == Some(items[j]),
    decreases items.len(),
{
    if defined_item(items.last()) == Some(id) {
        items.len() - 1
    } else {
        let shorter = items.drop_last();
        let j = lemma_definition_position(shorter, id);
        assert forall|later: int| j < later < items.len() implies defined_item(
            #[trigger] items[later],
        ) != defined_item(items[j]) by {
            if later < shorter.len() {
                assert(shorter[later] == items[later]);
            }
        }
        j
    }
}

/// More rounds show at least as much.
pub proof fn lemma_free_within_monotone(items: Seq<MetadataView>, d1: nat, d2: nat)
    requires
        d1 <= d2,
    ensures
        free_within(items, d1).subset_of(free_within(items, d2)),
    decreases d2,
{
    if d1 == 0 {
    } else {
        lemma_free_within_monotone(items, (d1 - 1) as nat, (d2 - 1) as nat);
        let known1 = free_within(items, (d1 - 1) as nat);
        let known2 = free_within(items, (d2 - 1) as nat);
        assert forall|id: ItemIdView| free_step(items, known1).contains(id) implies free_step(
            items,
            known2,
        ).contains(id) by {
            let def = definition_of(items, id)->0;
            assert forall|k: int| 0 <= k < definition_types(def).len() implies !holds_reference(
                #[trigger] definition_types(def)[k],
                known2,
            ) by {
                assert(!holds_reference(definition_types(def)[k], known1));
            }
        }
    }
}

/// An item that depends on one that is not reference-free is not
/// reference-free either.
pub proof fn lemma_dependency_holds_reference(
    items: Seq<MetadataView>,
    from: ItemIdView,
    to: ItemIdView,
)
    requires
        depends_on(items, from, to),
        !is_reference_free(items, to),
    ensures
        !is_reference_free(items, from),
{
    if is_reference_free(items, from) {
        let depth = choose|depth: nat| free_within(items, depth).contains(from);
        assert(depth > 0);
        let known = free_within(items, (depth - 1) as nat);
        let def = definition_of(items, from)->0;
        let k = choose|k: int|
            0 <= k < definition_types(def).len() && named_item(#[trigger] definition_types(def)[k])
                == Some(to);
        assert(!holds_reference(definition_types(def)[k], known));
        assert(known.contains(to));
    }
}

/// No item on a dependency cycle is reference-free: where the last item of
/// a dependency path depends on the item at `start`, no round shows any item
/// from `start` on to be reference-free.
pub proof fn lemma_cycle_holds_reference(
    items: Seq<MetadataView>,
    path: Seq<ItemIdView>,
    start: int,
    depth: nat,
)
    requires
        is_dependency_path(items, path),
        0 <= start < path.len(),
        depends_on(items, path.last(), path[start]),
    ensures
        forall|t: int| start <= t < path.len() ==> !free_within(items, depth).contains(path[t]),
    decreases depth,
{
    if depth > 0 {
        lemma_cycle_holds_reference(items, path, start, (depth - 1) as nat);
        let known = free_within(items, (depth - 1) as nat);
        assert forall|t: int| start <= t < path.len() implies !free_within(items, depth).contains(
            path[t],
        ) by {
            if free_within(items, depth).contains(path[t]) {
                let next = if t == path.len() - 1 {
                    path[start]
                } else {
                    path[t + 1]
                };
                assert(depends_on(items, path[t], next));
                let def = definition_of(items, path[t])->0;
                let k = choose|k: int|
                    0 <= k < definition_types(def).len() && named_item(
                        #[trigger] definition_types(def)[k],
                    ) == Some(next);
                assert(!holds_reference(definition_types(def)[k], known));
                assert(known.contains(next));
            }
        }
    }
}

/// An item on a dependency cycle is not reference-free.
pub proof fn lemma_cycle_not_reference_free(
    items: Seq<MetadataView>,
    path: Seq<ItemIdView>,
    start: int,
)
    requires
        is_dependency_path(items, path),
        0 <= start < path.len(),
        depends_on(items, path.last(), path[start]),
    ensures
        forall|t: int| start <= t < path.len() ==> !is_reference_free(items, #[trigger] path[t]),
{
    assert forall|t: int| start <= t < path.len() implies !is_reference_free(
        items,
        #[trigger] path[t],
    ) by {
        if is_reference_free(items, path[t]) {
            let depth = choose|depth: nat| free_within(items, depth).contains(path[t]);
            lemma_cycle_holds_reference(items, path, start, depth);
        }
    }
}

/// Reference-freedom unfolds by one step: an item is reference-free exactly
/// when it has a definition none of whose types is an object or names an
/// item that is not reference-free.
pub proof fn lemma_reference_free_unfolds(items: Seq<MetadataView>, id: ItemIdView)
    ensures
        is_reference_free(items, id) <==> free_step(items, reference_free_items(items)).contains(
            id,
        ),
{
    let all = reference_free_items(items);
    if is_reference_free(items, id) {
        let depth = choose|depth: nat| free_within(items, depth).contains(id);
        let known = free_within(items, (depth - 1) as nat);
        let def = definition_of(items, id)->0;
        assert forall|k: int| 0 <= k < definition_types(def).len() implies !holds_reference(
            #[trigger] definition_types(def)[k],
            all,
        ) by {
            assert(!holds_reference(definition_types(def)[k], known));
            match named_item(definition_types(def)[k]) {
                Some(dep) => {
                    assert(known.contains(dep));
                    assert(is_reference_free(items, dep));
                },
                None => {},
            }
        }
    }
    if free_step(items, all).contains(id) {
        let def = definition_of(items, id)->0;
        let types = definition_types(def);
        let depth = lemma_common_depth(items, types, types.len() as int);
        assert(free_within(items, depth + 1).contains(id));
    }
}

/// An item whose definition is made of types that are no objects and name
/// no records, enums or external types is reference-free.
pub proof fn lemma_plain_definition_reference_free(items: Seq<MetadataView>, id: ItemIdView)
    requires
        definition_of(items, id) is Some,
        forall|k: int|
            0 <= k < definition_types(definition_of(items, id)->0).len() ==> !(
            #[trigger] definition_types(definition_of(items, id)->0)[k] is Object) && named_item(
                definition_types(definition_of(items, id)->0)[k],
            ) is None,
    ensures
        is_reference_free(items, id),
{
    let def = definition_of(items, id)->0;
    assert forall|k: int| 0 <= k < definition_types(def).len() implies !holds_reference(
        #[trigger] definition_types(def)[k],
        free_within(items, 0),
    ) by {
        assert(!(definition_types(def)[k] is Object));
        assert(named_item(definition_types(def)[k]) is None);
    }
    assert(free_within(items, 1).contains(id));
}

/// A number of rounds that shows all named items among the first `n` types
/// to be reference-free, given that each of them is.
proof fn lemma_common_depth(items: Seq<MetadataView>, types: Seq<TypeView>, n: int) -> (depth:
    nat)
    requires
        0 <= n <= types.len(),
        forall|k: int|
            0 <= k < n ==> !holds_reference(#[trigger] types[k], reference_free_items(items)),
    ensures
        forall|k: int| 0 <= k < n ==> !holds_reference(#[trigger] types[k], free_within(items, depth)),
    decreases n,
{
    if n == 0 {
        0
    } else {
        let before = lemma_common_depth(items, types, n - 1);
        let last = types[n - 1];
        assert(!holds_reference(last, reference_free_items(items)));
        let own: nat = match named_item(last) {
            Some(dep) => {
                assert(is_reference_free(items, dep));
                choose|depth: nat| free_within(items, depth).contains(dep)
            },
            None => 0,
        };
        let depth = if before <= own {
            own
        } else {
            before
        };
        lemma_free_within_monotone(items, before, depth);
        lemma_free_within_monotone(items, own, depth);
        assert forall|k: int| 0 <= k < n implies !holds_reference(
            #[trigger] types[k],
            free_within(items, depth),
        ) by {
            if k < n - 1 {
                assert(!holds_reference(types[k], free_within(items, before)));
            }
        }
        depth
    }
}

impl ItemIdentifier {
    /// The identifier of the record or enum `name` under `mod_path`.
    pub fn new(mod_path: String, name: String) -> (id: ItemIdentifier)
        ensures
            id@ == (ItemIdView { mod_path: mod_path@, name: name@ }),
    {
        ItemIdentifier { mod_path, name }
    }

    /// The module path of the item.
    pub fn mod_path(&self) -> (path: &str)
        ensures
            path@ == self@.mod_path,
    {
        self.mod_path.as_str()
    }

    /// The name of the item.
    pub fn name(&self) -> (name: &str)
        ensures
            name@ == self@.name,
    {
        self.name.as_str()
    }

    /// Whether this is the identifier made of `mod_path` and `name`.
    pub fn is(&self, mod_path: &str, name: &str) -> (r: bool)
        ensures
            r == (self@ == ItemIdView { mod_path: mod_path@, name: name@ }),
    {
        str_eq(self.mod_path.as_str(), mod_path) && str_eq(self.name.as_str(), name)
    }
}

/// Whether the record or enum `name` under `mod_path` is among `ids`.
pub fn contains_identifier(ids: &Vec<ItemIdentifier>, mod_path: &str, name: &str) -> (r: bool)
    ensures
        r == identifier_set(ids@).contains(ItemIdView { mod_path: mod_path@, name: name@ }),
{
    let mut i: usize = 0;
    while i < ids.len()
        invariant
            i <= ids@.len(),
            forall|k: int|
                0 <= k < i ==> (#[trigger] ids@[k])@ != (ItemIdView {
                    mod_path: mod_path@,
                    name: name@,
                }),
        decreases ids@.len() - i,
    {
        if ids[i].is(mod_path, name) {
            return true;
        }
        i += 1;
    }
    false
}

/// How far the analysis of the item at a position has come.
#[derive(Clone, Copy, PartialEq, Eq, Structural)]
enum Progress {
    Unvisited,
    Visiting,
    ReferenceFree,
    ContainsReference,
}

/// The number of positions not yet visited.
spec fn unvisited_count(progress: Seq<Progress>) -> nat
    decreases progress.len(),
{
    if progress.len() == 0 {
        0
    } else {
        unvisited_count(progress.drop_last()) + if progress.last() == Progress::Unvisited {
            1nat
        } else {
            0nat
        }
    }
}

proof fn lemma_unvisited_count_update(progress: Seq<Progress>, j: int, state: Progress)
    requires
        0 <= j < progress.len(),
        state != Progress::Unvisited,
    ensures
        unvisited_count(progress.update(j, state)) == unvisited_count(progress) - if progress[j]
            == Progress::Unvisited {
            1int
        } else {
            0int
        },
    decreases progress.len(),
{
    let updated = progress.update(j, state);
    if j == progress.len() - 1 {
        assert(updated.drop_last() == progress.drop_last());
    } else {
        assert(updated.drop_last() == progress.drop_last().update(j, state));
        lemma_unvisited_count_update(progress.drop_last(), j, state);
    }
}

/// The identifier defined at a position.
spec fn id_at(items: Seq<MetadataView>, j: int) -> ItemIdView {
    defined_item(items[j])->0
}

/// What the analysis knows while the items of `path` are being visited, the
/// last one innermost.
spec fn analysis_invariant(
    items: Seq<MetadataView>,
    progress: Seq<Progress>,
    path: Seq<ItemIdView>,
) -> bool {
    &&& progress.len() == items.len()
    &&& is_dependency_path(items, path)
    &&& forall|j: int|
        0 <= j < progress.len() && #[trigger] progress[j] != Progress::Unvisited
            ==> is_definition_at(items, j)
    &&& forall|j: int|
        0 <= j < progress.len() && #[trigger] progress[j] == Progress::ReferenceFree
            ==> is_reference_free(items, id_at(items, j))
    &&& forall|j: int|
        0 <= j < progress.len() && #[trigger] progress[j] == Progress::ContainsReference
            ==> !is_reference_free(items, id_at(items, j))
    &&& forall|j: int|
        0 <= j < progress.len() && #[trigger] progress[j] == Progress::Visiting ==> path.contains(
            id_at(items, j),
        )
}

/// Visited positions keep their state, and no further position is being
/// visited.
spec fn progress_extends(before: Seq<Progress>, after: Seq<Progress>) -> bool {
    &&& after.len() == before.len()
    &&& forall|j: int|
        0 <= j < before.len() && #[trigger] before[j] != Progress::Unvisited ==> after[j]
            == before[j]
    &&& forall|j: int|
        0 <= j < before.len() && #[trigger] after[j] == Progress::Visiting ==> before[j]
            == Progress::Visiting
    &&& unvisited_count(after) <= unvisited_count(before)
}

/// Whether `item` defines the record or enum `name` under `mod_path`.
fn defines(item: &Metadata, mod_path: &str, name: &str) -> (r: bool)
    ensures
        r == (defined_item(item@) == Some(ItemIdView { mod_path: mod_path@, name: name@ })),
{
    match item {
        Metadata::Record(meta) => str_eq(meta.mod_path.as_str(), mod_path) && str_eq(
            meta.name.as_str(),
            name,
        ),
        Metadata::Enum(meta) => str_eq(meta.mod_path.as_str(), mod_path) && str_eq(
            meta.name.as_str(),
            name,
        ),
        _ => false,
    }
}

/// The position of the definition of a record or enum: that of the last
/// item that defines it.
fn find_definition(items: &[Metadata], mod_path: &str, name: &str) -> (found: Option<usize>)
    ensures
        match found {
            Some(j) => {
                &&& is_definition_at(metadata_views(items@), j as int)
                &&& id_at(metadata_views(items@), j as int) == ItemIdView {
                    mod_path: mod_path@,
                    name: name@,
                }
            },
            None => definition_of(
                metadata_views(items@),
                ItemIdView { mod_path: mod_path@, name: name@ },
            ) is None,
        },
{
    let ghost views = metadata_views(items@);
    let ghost id = ItemIdView { mod_path: mod_path@, name: name@ };
    let mut i: usize = items.len();
    while i > 0
        invariant
            i <= items@.len(),
            views == metadata_views(items@),
            id == (ItemIdView { mod_path: mod_path@, name: name@ }),
            forall|j: int| i <= j < views.len() ==> defined_item(#[trigger] views[j]) != Some(id),
        decreases i,
    {
        i -= 1;
        if defines(&items[i], mod_path, name) {
            return Some(i);
        }
    }
    proof {
        lemma_no_definition(views, id);
    }
    None
}

/// The types that the fields are made of, in order.
fn types_of_fields<'a>(fields: &'a Vec<FieldMetadata>, types: &mut Vec<&'a Type>)
    ensures
        type_views(final(types)@) == type_views(old(types)@) + field_types(
            crate::metadata::field_views(fields@),
        ),
{
    let ghost views = crate::metadata::field_views(fields@);
    let ghost start = type_views(types@);
    let mut i: usize = 0;
    assert(views.take(0) == Seq::<FieldView>::empty());
    while i < fields.len()
        invariant
            i <= fields@.len(),
            views == crate::metadata::field_views(fields@),
            type_views(types@) == start + field_types(views.take(i as int)),
        decreases fields@.len() - i,
    {
        let mut nested = fields[i].ty.iter_types();
        let ghost before = types@;
        let ghost added = nested@;
        types.append(&mut nested);
        proof {
            assert(type_views(before + added) =~= type_views(before) + type_views(added));
            assert(views.take(i + 1).drop_last() == views.take(i as int));
            assert(views.take(i + 1).last() == fields@[i as int]@);
        }
        i += 1;
    }
    assert(views.take(fields@.len() as int) == views);
}

/// The types that a record or enum is made of, in order; none for any other
/// item.
fn types_of_definition(item: &Metadata) -> (types: Vec<&Type>)
    ensures
        type_views(types@) == definition_types(item@),
{
    let mut types: Vec<&Type> = Vec::new();
    assert(type_views(types@) == Seq::<TypeView>::empty());
    match item {
        Metadata::Record(meta) => {
            types_of_fields(&meta.fields, &mut types);
        },
        Metadata::Enum(meta) => {
            let ghost views = crate::metadata::variant_views(meta.variants@);
            let mut i: usize = 0;
            assert(views.take(0) == Seq::<VariantView>::empty());
            while i < meta.variants.len()
                invariant
                    i <= meta.variants@.len(),
                    views == crate::metadata::variant_views(meta.variants@),
                    type_views(types@) == variant_types(views.take(i as int)),
                decreases meta.variants@.len() - i,
            {
                types_of_fields(&meta.variants[i].fields, &mut types);
                proof {
                    assert(views.take(i + 1).drop_last() == views.take(i as int));
                    assert(views.take(i + 1).last() == meta.variants@[i as int]@);
                }
                i += 1;
            }
            assert(views.take(meta.variants@.len() as int) == views);
        },
        _ => {},
    }
    types
}

/// The module path and name of the record or enum that a type names.
fn named_type(ty: &Type) -> (named: Option<(&str, &str)>)
    ensures
        match named {
            Some((mod_path, name)) => named_item(ty@) == Some(
                ItemIdView { mod_path: mod_path@, name: name@ },
            ),
            None => named_item(ty@) is None,
        },
{
    match ty {
        Type::Record { mod_path, name } => Some((mod_path.as_str(), name.as_str())),
        Type::Enum { mod_path, name } => Some((mod_path.as_str(), name.as_str())),
        Type::External { mod_path, name, .. } => Some((mod_path.as_str(), name.as_str())),
        _ => None,
    }
}

fn is_object(ty: &Type) -> (r: bool)
    ensures
        r == (ty@ is Object),
{
    match ty {
        Type::Object { .. } => true,
        _ => false,
    }
}

/// The identifier that a record or enum defines.
fn identifier_of(item: &Metadata) -> (id: Option<ItemIdentifier>)
    ensures
        match id {
            Some(id) => defined_item(item@) == Some(id@),
            None => defined_item(item@) is None,
        },
{
    match item {
        Metadata::Record(meta) => Some(ItemIdentifier::new(meta.mod_path.clone(), meta.name.clone())),
        Metadata::Enum(meta) => Some(ItemIdentifier::new(meta.mod_path.clone(), meta.name.clone())),
        _ => None,
    }
}

/// An item without a definition is not reference-free.
proof fn lemma_undefined_holds_reference(items: Seq<MetadataView>, id: ItemIdView)
    requires
        definition_of(items, id) is None,
    ensures
        !is_reference_free(items, id),
{
    if is_reference_free(items, id) {
        let depth = choose|depth: nat| free_within(items, depth).contains(id);
        assert(depth > 0);
    }
}

/// An item one of whose types is an object is not reference-free.
proof fn lemma_object_holds_reference(items: Seq<MetadataView>, id: ItemIdView, k: int)
    requires
        definition_of(items, id) is Some,
        0 <= k < definition_types(definition_of(items, id)->0).len(),
        definition_types(definition_of(items, id)->0)[k] is Object,
    ensures
        !is_reference_free(items, id),
{
    if is_reference_free(items, id) {
        let depth = choose|depth: nat| free_within(items, depth).contains(id);
        assert(depth > 0);
        let known = free_within(items, (depth - 1) as nat);
        assert(!holds_reference(definition_types(definition_of(items, id)->0)[k], known));
    }
}

/// Whether the record or enum `name` under `mod_path`, which the item being
/// visited depends on, stands in the way of that item being reference-free.
/// An item without a definition does, and so does one that is being visited
/// itself: it closes a cycle.
fn named_type_contains_object_references(
    items: &[Metadata],
    progress: &mut Vec<Progress>,
    mod_path: &str,
    name: &str,
    Ghost(path): Ghost<Seq<ItemIdView>>,
) -> (contains: bool)
    requires
        analysis_invariant(metadata_views(items@), old(progress)@, path),
        path.len() > 0,
        depends_on(
            metadata_views(items@),
            path.last(),
            ItemIdView { mod_path: mod_path@, name: name@ },
        ),
    ensures
        analysis_invariant(metadata_views(items@), final(progress)@, path),
        progress_extends(old(progress)@, final(progress)@),
        contains ==> !is_reference_free(metadata_views(items@), path.last()),
        !contains ==> is_reference_free(
            metadata_views(items@),
            ItemIdView { mod_path: mod_path@, name: name@ },
        ),
    decreases unvisited_count(old(progress)@), 1nat,
{
    let ghost views = metadata_views(items@);
    let ghost id = ItemIdView { mod_path: mod_path@, name: name@ };
    match find_definition(items, mod_path, name) {
        None => {
            proof {
                lemma_undefined_holds_reference(views, id);
                lemma_dependency_holds_reference(views, path.last(), id);
            }
            true
        },
        Some(j) => {
            match progress[j] {
                Progress::ReferenceFree => false,
                Progress::ContainsReference => {
                    proof {
                        lemma_dependency_holds_reference(views, path.last(), id);
                    }
                    true
                },
                Progress::Visiting => {
                    proof {
                        assert(path.contains(id));
                        let start = choose|start: int| 0 <= start < path.len() && path[start] == id;
                        lemma_cycle_not_reference_free(views, path, start);
                        assert(!is_reference_free(views, path[path.len() - 1]));
                    }
                    true
                },
                Progress::Unvisited => {
                    let contains = compute_single_contains_object_references(
                        items,
                        progress,
                        j,
                        Ghost(path),
                    );
                    proof {
                        if contains {
                            lemma_dependency_holds_reference(views, path.last(), id);
                        }
                    }
                    contains
                },
            }
        },
    }
}

/// Decides whether the record or enum defined at `index` holds an object
/// reference, and records the answer. Its types are looked at in order; the
/// visit stops at the first one that holds a reference.
fn compute_single_contains_object_references(
    items: &[Metadata],
    progress: &mut Vec<Progress>,
    index: usize,
    Ghost(path): Ghost<Seq<ItemIdView>>,
) -> (contains: bool)
    requires
        analysis_invariant(metadata_views(items@), old(progress)@, path),
        index < items@.len(),
        old(progress)@[index as int] == Progress::Unvisited,
        is_definition_at(metadata_views(items@), index as int),
        path.len() > 0 ==> depends_on(
            metadata_views(items@),
            path.last(),
            id_at(metadata_views(items@), index as int),
        ),
    ensures
        analysis_invariant(metadata_views(items@), final(progress)@, path),
        progress_extends(old(progress)@, final(progress)@),
        final(progress)@[index as int] == if contains {
            Progress::ContainsReference
        } else {
            Progress::ReferenceFree
        },
        unvisited_count(final(progress)@) < unvisited_count(old(progress)@),
    decreases unvisited_count(old(progress)@), 0nat,
{
    let ghost views = metadata_views(items@);
    let ghost id = id_at(views, index as int);
    let ghost inner = path.push(id);
    let ghost entry = progress@;
    proof {
        lemma_unvisited_count_update(progress@, index as int, Progress::Visiting);
        lemma_definition_at(views, index as int);
    }
    progress.set(index, Progress::Visiting);
    assert(analysis_invariant(views, progress@, inner)) by {
        assert forall|t: int| 0 <= t < inner.len() - 1 implies depends_on(
            views,
            #[trigger] inner[t],
            inner[t + 1],
        ) by {
            if t < path.len() - 1 {
                assert(depends_on(views, path[t], path[t + 1]));
            }
        }
        assert forall|j: int|
            0 <= j < progress@.len() && #[trigger] progress@[j]
                == Progress::Visiting implies inner.contains(id_at(views, j)) by {
            if j == index {
                assert(inner[path.len() as int] == id);
            } else {
                assert(entry[j] == Progress::Visiting);
                let at = choose|at: int| 0 <= at < path.len() && path[at] == id_at(views, j);
                assert(inner[at] == id_at(views, j));
            }
        }
    }
    let types = types_of_definition(&items[index]);
    let ghost type_list = type_views(types@);
    let ghost mut depth: nat = 0;
    let mut contains = false;
    let mut k: usize = 0;
    while k < types.len() && !contains
        invariant
            k <= types@.len(),
            index < items@.len(),
            views == metadata_views(items@),
            id == id_at(views, index as int),
            inner == path.push(id),
            type_list == type_views(types@),
            definition_of(views, id) == Some(views[index as int]),
            type_list == definition_types(views[index as int]),
            analysis_invariant(views, progress@, inner),
            progress@[index as int] == Progress::Visiting,
            entry == old(progress)@,
            progress@.len() == entry.len(),
            forall|j: int|
                0 <= j < entry.len() && #[trigger] entry[j] != Progress::Unvisited ==> progress@[j]
                    == entry[j],
            forall|j: int|
                0 <= j < entry.len() && #[trigger] progress@[j] == Progress::Visiting ==> j
                    == index || entry[j] == Progress::Visiting,
            unvisited_count(progress@) < unvisited_count(entry),
            contains ==> !is_reference_free(views, id),
            !contains ==> forall|q: int|
                0 <= q < k ==> !holds_reference(#[trigger] type_list[q], free_within(views, depth)),
        decreases types@.len() - k,
    {
        let ty = types[k];
        assert(ty@ == type_list[k as int]);
        if is_object(ty) {
            contains = true;
            proof {
                lemma_object_holds_reference(views, id, k as int);
            }
        } else {
            match named_type(ty) {
                Some((mod_path, name)) => {
                    let ghost dep = ItemIdView { mod_path: mod_path@, name: name@ };
                    let ghost before = progress@;
                    assert(inner.last() == id);
                    assert(depends_on(views, id, dep));
                    contains =
                    named_type_contains_object_references(
                        items,
                        progress,
                        mod_path,
                        name,
                        Ghost(inner),
                    );
                    proof {
                        assert(before[index as int] != Progress::Unvisited);
                        if !contains {
                            let own = choose|own: nat| free_within(views, own).contains(dep);
                            let deeper = if depth <= own {
                                own
                            } else {
                                depth
                            };
                            lemma_free_within_monotone(views, depth, deeper);
                            lemma_free_within_monotone(views, own, deeper);
                            assert forall|q: int| 0 <= q < k + 1 implies !holds_reference(
                                #[trigger] type_list[q],
                                free_within(views, deeper),
                            ) by {
                                if q < k {
                                    assert(!holds_reference(type_list[q], free_within(views, depth)));
                                }
                            }
                            depth = deeper;
                        }
                    }
                },
                None => {},
            }
        }
        k += 1;
    }
    let state = if contains {
        Progress::ContainsReference
    } else {
        Progress::ReferenceFree
    };
    proof {
        lemma_unvisited_count_update(progress@, index as int, state);
        if !contains {
            assert(free_step(views, free_within(views, depth)).contains(id));
            assert(free_within(views, depth + 1).contains(id));
        }
    }
    progress.set(index, state);
    assert(analysis_invariant(views, progress@, path)) by {
        assert forall|j: int|
            0 <= j < progress@.len() && #[trigger] progress@[j]
                == Progress::Visiting implies path.contains(id_at(views, j)) by {
            assert(entry[j] == Progress::Visiting);
        }
    }
    contains
}

/// The records and enums among `items` that hold no object reference.
///
/// Every record and enum is decided once. An item that is missing from this
/// list either holds a reference, depends on something that has no
/// definition, or lies on a cycle.
pub fn compute_types_without_obj_refs(items: &[Metadata]) -> (free: Vec<ItemIdentifier>)
    ensures
        identifier_set(free@) == reference_free_items(metadata_views(items@)),
        forall|a: int, b: int| 0 <= a < b < free@.len() ==> free@[a]@ != free@[b]@,
{
    let ghost views = metadata_views(items@);
    let mut progress: Vec<Progress> = Vec::new();
    let mut n: usize = 0;
    while n < items.len()
        invariant
            n <= items@.len(),
            progress@.len() == n,
            forall|j: int| 0 <= j < n ==> progress@[j] == Progress::Unvisited,
        decreases items@.len() - n,
    {
        progress.push(Progress::Unvisited);
        n += 1;
    }
    let mut i: usize = 0;
    while i < items.len()
        invariant
            i <= items@.len(),
            views == metadata_views(items@),
            analysis_invariant(views, progress@, Seq::empty()),
            forall|j: int|
                0 <= j < i && is_definition_at(views, j) ==> #[trigger] progress@[j]
                    != Progress::Unvisited,
        decreases items@.len() - i,
    {
        match identifier_of(&items[i]) {
            Some(id) => {
                match find_definition(items, id.mod_path(), id.name()) {
                    Some(j) => {
                        proof {
                            if is_definition_at(views, i as int) {
                                assert(defined_item(views[i as int]) == defined_item(views[j as int]));
                                assert(j == i);
                            }
                        }
                        if progress[j] == Progress::Unvisited {
                            let ghost before = progress@;
                            compute_single_contains_object_references(
                                items,
                                &mut progress,
                                j,
                                Ghost(Seq::empty()),
                            );
                            assert forall|q: int|
                                0 <= q < i && is_definition_at(views, q) implies #[trigger] progress@[q]
                                    != Progress::Unvisited by {
                                assert(before[q] != Progress::Unvisited);
                            }
                        }
                    },
                    None => {
                        proof {
                            if is_definition_at(views, i as int) {
                                lemma_definition_at(views, i as int);
                            }
                        }
                    },
                }
            },
            None => {},
        }
        i += 1;
    }
    let mut free: Vec<ItemIdentifier> = Vec::new();
    let ghost mut positions: Seq<int> = Seq::empty();
    let mut j: usize = 0;
    while j < items.len()
        invariant
            j <= items@.len(),
            views == metadata_views(items@),
            analysis_invariant(views, progress@, Seq::empty()),
            positions.len() == free@.len(),
            forall|k: int|
                0 <= k < positions.len() ==> 0 <= #[trigger] positions[k] < j && is_definition_at(
                    views,
                    positions[k],
                ) && id_at(views, positions[k]) == free@[k]@,
            forall|a: int, b: int| 0 <= a < b < positions.len() ==> positions[a] < positions[b],
            forall|k: int| 0 <= k < free@.len() ==> is_reference_free(views, #[trigger] free@[k]@),
            forall|q: int|
                0 <= q < j && #[trigger] progress@[q] == Progress::ReferenceFree ==> identifier_set(
                    free@,
                ).contains(id_at(views, q)),
        decreases items@.len() - j,
    {
        if progress[j] == Progress::ReferenceFree {
            match identifier_of(&items[j]) {
                Some(id) => {
                    let ghost before = free@;
                    free.push(id);
                    proof {
                        positions = positions.push(j as int);
                    }
                    assert forall|q: int|
                        0 <= q < j + 1 && #[trigger] progress@[q]
                            == Progress::ReferenceFree implies identifier_set(free@).contains(
                        id_at(views, q),
                    ) by {
                        if q < j {
                            let k = choose|k: int|
                                0 <= k < before.len() && #[trigger] before[k]@ == id_at(views, q);
                            assert(free@[k]@ == id_at(views, q));
                        } else {
                            assert(free@[before.len() as int]@ == id_at(views, q));
                        }
                    }
                },
                None => {},
            }
        }
        j += 1;
    }
    proof {
        assert forall|id: ItemIdView| is_reference_free(views, id) implies identifier_set(
            free@,
        ).contains(id) by {
            let depth = choose|depth: nat| free_within(views, depth).contains(id);
            assert(depth > 0);
            let q = lemma_definition_position(views, id);
            assert(progress@[q] != Progress::Unvisited);
            assert(progress@[q] != Progress::Visiting);
            assert(progress@[q] != Progress::ContainsReference);
        }
        assert(identifier_set(free@) =~= reference_free_items(views));
        assert forall|a: int, b: int| 0 <= a < b < free@.len() implies free@[a]@ != free@[b]@ by {
            assert(positions[a] < positions[b]);
            assert(is_definition_at(views, positions[a]));
            assert(defined_item(views[positions[b]]) != defined_item(views[positions[a]]));
        }
    }
    free
}

} // verus!
