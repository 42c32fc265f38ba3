//! Kubeconfig files and how the entries of one are put into another.
use vstd::prelude::*;

use crate::text::{chars_of, same};

verus! {

/// An entry of a list in which each is found by its name.
pub trait NamedEntry: Sized {
    /// The entry's name.
    spec fn entry_name(&self) -> Seq<char>;

    /// The entry's name.
    fn name(&self) -> (r: &str)
        ensures
            r@ == self.entry_name(),
    ;
}

/// A cluster, with its name.
#[derive(Debug)]
pub struct NamedCluster {
    pub name: String,
    pub cluster: serde_yaml::Value,
}

/// A context, with its name.
#[derive(Debug)]
pub struct NamedContext {
    pub name: String,
    pub context: serde_yaml::Value,
}

/// A user, with its name.
#[derive(Debug)]
pub struct NamedUser {
    pub name: String,
    pub user: serde_yaml::Value,
}

/// A field of a kubeconfig that has no meaning here, with its key.
#[derive(Debug)]
pub struct ExtraField {
    pub key: String,
    pub value: serde_yaml::Value,
}

impl NamedEntry for NamedCluster {
    open spec fn entry_name(&self) -> Seq<char> {
        self.name@
    }

    fn name(&self) -> (r: &str) {
        self.name.as_str()
    }
}

impl NamedEntry for NamedContext {
    open spec fn entry_name(&self) -> Seq<char> {
        self.name@
    }

    fn name(&self) -> (r: &str) {
        self.name.as_str()
    }
}

impl NamedEntry for NamedUser {
    open spec fn entry_name(&self) -> Seq<char> {
        self.name@
    }

    fn name(&self) -> (r: &str) {
        self.name.as_str()
    }
}

impl NamedEntry for ExtraField {
    open spec fn entry_name(&self) -> Seq<char> {
        self.key@
    }

    fn name(&self) -> (r: &str) {
        self.key.as_str()
    }
}

/// The position of the first entry of that name, or the length of the list
/// where there is none.
pub open spec fn index_named<T: NamedEntry>(entries: Seq<T>, name: Seq<char>) -> int
    decreases entries.len(),
{
    if entries.len() == 0 || entries[0].entry_name() == name {
        0
    } else {
        1 + index_named(entries.skip(1), name)
    }
}

/// The list with an entry put in: in the place of the first of its name, or at
/// the end.
pub open spec fn put_named<T: NamedEntry>(entries: Seq<T>, entry: T) -> Seq<T> {
    let i = index_named(entries, entry.entry_name());
    if i < entries.len() {
        entries.update(i, entry)
    } else {
        entries.push(entry)
    }
}

/// The list with the entries of another put in, one after the other.
pub open spec fn merged<T: NamedEntry>(target: Seq<T>, incoming: Seq<T>) -> Seq<T>
    decreases incoming.len(),
{
    if incoming.len() == 0 {
        target
    } else {
        put_named(merged(target, incoming.drop_last()), incoming.last())
    }
}

/// The position of the first entry of that name.
fn find_named<T: NamedEntry>(entries: &Vec<T>, name: &str) -> (i: usize)
    ensures
        i == index_named(entries@, name@),
        i <= entries@.len(),
{
    let wanted = chars_of(name);
    let mut i: usize = 0;
    assert(entries@.skip(0) == entries@);
    while i < entries.len() && !same(&chars_of(entries[i].name()), &wanted)
        invariant
            i <= entries@.len(),
            wanted@ == name@,
            index_named(entries@, name@) == i + index_named(entries@.skip(i as int), name@),
        decreases entries@.len() - i,
    {
        assert(entries@.skip(i as int).skip(1) == entries@.skip(i + 1));
        i = i + 1;
    }
    i
}

/// Puts the entries of one list into another: an entry takes the place of the
/// first of its name, or goes to the end.
pub fn merge_named<T: NamedEntry>(target: &mut Vec<T>, incoming: Vec<T>)
    ensures
        final(target)@ == merged(old(target)@, incoming@),
        is_merged_by_name(old(target)@, incoming@, final(target)@),
{
    let ghost all = incoming@;
    let ghost start = target@;
    proof {
        law_merging_goes_by_name(start, all);
    }
    assert(all.take(0) == Seq::<T>::empty());
    for entry in iter: incoming
        invariant
            iter.seq() == all,
            target@ == merged(start, all.take(iter.index())),
    {
        assert(all.take(iter.index() + 1).drop_last() == all.take(iter.index()));
        let i: usize = find_named(target, entry.name());
        if i < target.len() {
            target.set(i, entry);
        } else {
            target.push(entry);
        }
    }
    assert(all.take(all.len() as int) == all);
}

/// A kubeconfig file. What stands in an entry stays as it is.
#[derive(Debug)]
pub struct Kubeconfig {
    pub api_version: String,
    pub kind: String,
    pub clusters: Vec<NamedCluster>,
    pub contexts: Vec<NamedContext>,
    pub users: Vec<NamedUser>,
    pub current_context: Option<String>,
    pub preferences: Option<serde_yaml::Value>,
    pub extra: Vec<ExtraField>,
}

/// What a kubeconfig file holds.
#[verifier::ext_equal]
pub struct KubeconfigView {
    pub api_version: Seq<char>,
    pub kind: Seq<char>,
    pub clusters: Seq<NamedCluster>,
    pub contexts: Seq<NamedContext>,
    pub users: Seq<NamedUser>,
    pub current_context: Option<Seq<char>>,
    pub preferences: Option<serde_yaml::Value>,
    pub extra: Seq<ExtraField>,
}

impl View for Kubeconfig {
    type V = KubeconfigView;

    open spec fn view(&self) -> KubeconfigView {
        KubeconfigView {
            api_version: self.api_version@,
            kind: self.kind@,
            clusters: self.clusters@,
            contexts: self.contexts@,
            users: self.users@,
            current_context: match self.current_context {
                Some(name) => Some(name@),
                None => None,
            },
            preferences: self.preferences,
            extra: self.extra@,
        }
    }
}

impl KubeconfigView {
    /// Whether no two fields have the same key, as in a file that was read.
    pub open spec fn well_formed(self) -> bool {
        names_unique(self.extra)
    }
}

/// A kubeconfig file that holds nothing.
pub open spec fn empty_kubeconfig() -> KubeconfigView {
    KubeconfigView {
        api_version: seq![],
        kind: seq![],
        clusters: seq![],
        contexts: seq![],
        users: seq![],
        current_context: None,
        preferences: None,
        extra: seq![],
    }
}

impl Default for Kubeconfig {
    fn default() -> (r: Self)
        ensures
            r@ == empty_kubeconfig(),
            r@.well_formed(),
            r.api_version@.len() == 0 && r.kind@.len() == 0,
            r.clusters@.len() == 0 && r.contexts@.len() == 0 && r.users@.len() == 0,
            r.current_context is None && r.preferences is None && r.extra@.len() == 0,
    {
        Kubeconfig {
            api_version: String::new(),
            kind: String::new(),
            clusters: Vec::new(),
            contexts: Vec::new(),
            users: Vec::new(),
            current_context: None,
            preferences: None,
            extra: Vec::new(),
        }
    }
}

/// The fields that have a key.
pub open spec fn keyed(fields: Seq<ExtraField>) -> Seq<ExtraField> {
    fields.filter(|field: ExtraField| field.key@.len() > 0)
}

/// The fields that have a key.
fn keep_keyed(fields: Vec<ExtraField>) -> (r: Vec<ExtraField>)
    ensures
        r@ == keyed(fields@),
{
    reveal(Seq::filter);
    let ghost all = fields@;
    let mut r: Vec<ExtraField> = Vec::new();
    assert(all.take(0) == Seq::<ExtraField>::empty());
    for field in iter: fields
        invariant
            iter.seq() == all,
            r@ == keyed(all.take(iter.index())),
    {
        reveal(Seq::filter);
        assert(all.take(iter.index() + 1).drop_last() == all.take(iter.index()));
        if !field.key.as_str().is_empty() {
            r.push(field);
        }
    }
    assert(all.take(all.len() as int) == all);
    r
}

/// One kubeconfig put into another: the entries by their names, and what the
/// incoming one sets takes the place of what was set.
pub open spec fn merged_kubeconfig(
    target: KubeconfigView,
    incoming: KubeconfigView,
) -> KubeconfigView {
    KubeconfigView {
        api_version: target.api_version,
        kind: target.kind,
        clusters: merged(target.clusters, incoming.clusters),
        contexts: merged(target.contexts, incoming.contexts),
        users: merged(target.users, incoming.users),
        current_context: if incoming.current_context is Some {
            incoming.current_context
        } else {
            target.current_context
        },
        preferences: if incoming.preferences is Some {
            incoming.preferences
        } else {
            target.preferences
        },
        extra: merged(target.extra, keyed(incoming.extra)),
    }
}

/// Puts one kubeconfig into another.
pub fn merge_kubeconfig(target: &mut Kubeconfig, incoming: Kubeconfig)
    ensures
        final(target)@ == merged_kubeconfig(old(target)@, incoming@),
        old(target)@.well_formed() ==> final(target)@.well_formed(),
        is_merged_by_name(old(target).clusters@, incoming.clusters@, final(target).clusters@),
        is_merged_by_name(old(target).contexts@, incoming.contexts@, final(target).contexts@),
        is_merged_by_name(old(target).users@, incoming.users@, final(target).users@),
        is_merged_by_name(old(target).extra@, keyed(incoming.extra@), final(target).extra@),
        incoming.current_context is Some ==> final(target).current_context
            == incoming.current_context,
        incoming.current_context is None ==> final(target).current_context == old(
            target,
        ).current_context,
        incoming.preferences is Some ==> final(target).preferences == incoming.preferences,
        incoming.preferences is None ==> final(target).preferences == old(target).preferences,
        final(target).api_version@ == old(target).api_version@,
        final(target).kind@ == old(target).kind@,
{
    proof {
        if target@.well_formed() {
            law_merging_keeps_names_unique(target@.extra, keyed(incoming@.extra));
        }
    }
    merge_named(&mut target.clusters, incoming.clusters);
    merge_named(&mut target.contexts, incoming.contexts);
    merge_named(&mut target.users, incoming.users);
    if incoming.current_context.is_some() {
        target.current_context = incoming.current_context;
    }
    if incoming.preferences.is_some() {
        target.preferences = incoming.preferences;
    }
    merge_named(&mut target.extra, keep_keyed(incoming.extra));
}

/// A kubeconfig that says what it is.
pub open spec fn with_defaults(config: KubeconfigView) -> KubeconfigView {
    KubeconfigView {
        api_version: if config.api_version.len() == 0 {
            "v1"@
        } else {
            config.api_version
        },
        kind: if config.kind.len() == 0 {
            "Config"@
        } else {
            config.kind
        },
        ..config
    }
}

/// The user's kubeconfig with the cluster's put in, given the user's, where
/// there is one.
pub open spec fn updated_kubeconfig(
    existing: Option<KubeconfigView>,
    stored: KubeconfigView,
) -> KubeconfigView {
    with_defaults(
        merged_kubeconfig(
            match existing {
                Some(config) => config,
                None => empty_kubeconfig(),
            },
            stored,
        ),
    )
}

/// Puts the cluster's kubeconfig into the user's, where there is one.
pub fn update_kubeconfig(existing: Option<Kubeconfig>, stored: Kubeconfig) -> (r: Kubeconfig)
    ensures
        r@ == updated_kubeconfig(
            match existing {
                Some(config) => Some(config@),
                None => None,
            },
            stored@,
        ),
        existing is None || existing->0@.well_formed() ==> r@.well_formed(),
        existing matches Some(config) ==> {
            &&& is_merged_by_name(config.clusters@, stored.clusters@, r.clusters@)
            &&& is_merged_by_name(config.contexts@, stored.contexts@, r.contexts@)
            &&& is_merged_by_name(config.users@, stored.users@, r.users@)
            &&& is_merged_by_name(config.extra@, keyed(stored.extra@), r.extra@)
            &&& stored.current_context is None ==> r.current_context == config.current_context
            &&& stored.preferences is None ==> r.preferences == config.preferences
            &&& config.api_version@.len() > 0 ==> r.api_version@ == config.api_version@
            &&& config.kind@.len() > 0 ==> r.kind@ == config.kind@
        },
        existing is None ==> {
            &&& is_merged_by_name(Seq::<NamedCluster>::empty(), stored.clusters@, r.clusters@)
            &&& is_merged_by_name(Seq::<NamedContext>::empty(), stored.contexts@, r.contexts@)
            &&& is_merged_by_name(Seq::<NamedUser>::empty(), stored.users@, r.users@)
            &&& is_merged_by_name(Seq::<ExtraField>::empty(), keyed(stored.extra@), r.extra@)
            &&& stored.current_context is None ==> r.current_context is None
            &&& stored.preferences is None ==> r.preferences is None
        },
        stored.current_context is Some ==> r.current_context == stored.current_context,
        stored.preferences is Some ==> r.preferences == stored.preferences,
        existing is None || existing->0.api_version@.len() == 0 ==> r.api_version@ == "v1"@,
        existing is None || existing->0.kind@.len() == 0 ==> r.kind@ == "Config"@,
{
    let mut target = match existing {
        Some(config) => config,
        None => Kubeconfig::default(),
    };
    merge_kubeconfig(&mut target, stored);
    if target.api_version.as_str().is_empty() {
        target.api_version = "v1".to_string();
    }
    if target.kind.as_str().is_empty() {
        target.kind = "Config".to_string();
    }
    target
}

/// Whether a list has an entry of that name.
pub open spec fn has_name<T: NamedEntry>(entries: Seq<T>, name: Seq<char>) -> bool {
    exists|i: int| 0 <= i < entries.len() && (#[trigger] entries[i]).entry_name() == name
}

/// The position of the last entry of that name, or a negative number where
/// there is none.
pub open spec fn last_named<T: NamedEntry>(entries: Seq<T>, name: Seq<char>) -> int
    decreases entries.len(),
{
    if entries.len() == 0 {
        -1
    } else if entries.last().entry_name() == name {
        entries.len() - 1
    } else {
        last_named(entries.drop_last(), name)
    }
}

/// Whether no two entries have the same name.
pub open spec fn names_unique<T: NamedEntry>(entries: Seq<T>) -> bool {
    forall|i: int, j: int|
        0 <= i < j < entries.len() ==> (#[trigger] entries[i]).entry_name() != (
        #[trigger] entries[j]).entry_name()
}

proof fn lemma_index_named<T: NamedEntry>(entries: Seq<T>, name: Seq<char>)
    ensures
        0 <= index_named(entries, name) <= entries.len(),
        index_named(entries, name) < entries.len() ==> entries[index_named(
            entries,
            name,
        )].entry_name() == name,
        forall|j: int|
            0 <= j < index_named(entries, name) ==> (#[trigger] entries[j]).entry_name() != name,
        index_named(entries, name) < entries.len() <==> has_name(entries, name),
    decreases entries.len(),
{
    if entries.len() > 0 && entries[0].entry_name() != name {
        let rest = entries.skip(1);
        lemma_index_named(rest, name);
        assert forall|j: int| 0 <= j < index_named(entries, name) implies (
        #[trigger] entries[j]).entry_name() != name by {
            if j > 0 {
                assert(rest[j - 1] == entries[j]);
            }
        }
        if index_named(entries, name) < entries.len() {
            assert(rest[index_named(rest, name)] == entries[index_named(entries, name)]);
        }
        if has_name(entries, name) {
            let i = choose|i: int|
                0 <= i < entries.len() && (#[trigger] entries[i]).entry_name() == name;
            assert(rest[i - 1] == entries[i]);
        }
    } else if entries.len() > 0 {
        assert(entries[0].entry_name() == name);
    }
}

proof fn lemma_last_named<T: NamedEntry>(entries: Seq<T>, name: Seq<char>)
    ensures
        -1 <= last_named(entries, name) < entries.len(),
        last_named(entries, name) >= 0 ==> entries[last_named(entries, name)].entry_name() == name,
        last_named(entries, name) >= 0 <==> has_name(entries, name),
    decreases entries.len(),
{
    if entries.len() > 0 {
        if entries.last().entry_name() == name {
            assert(entries[entries.len() - 1].entry_name() == name);
        } else {
            let front = entries.drop_last();
            lemma_last_named(front, name);
            if has_name(entries, name) {
                let i = choose|i: int|
                    0 <= i < entries.len() && (#[trigger] entries[i]).entry_name() == name;
                assert(front[i] == entries[i]);
            }
            if has_name(front, name) {
                let i = choose|i: int|
                    0 <= i < front.len() && (#[trigger] front[i]).entry_name() == name;
                assert(front[i] == entries[i]);
            }
        }
    }
}

/// The position that an entry stands at in a list, given that it is the first
/// of its name.
proof fn lemma_index_is<T: NamedEntry>(entries: Seq<T>, i: int)
    requires
        0 <= i < entries.len(),
        forall|j: int|
            0 <= j < i ==> (#[trigger] entries[j]).entry_name() != entries[i].entry_name(),
    ensures
        index_named(entries, entries[i].entry_name()) == i,
{
    let name = entries[i].entry_name();
    lemma_index_named(entries, name);
    assert(has_name(entries, name));
}

/// What stands where after merging.
proof fn lemma_merged<T: NamedEntry>(target: Seq<T>, incoming: Seq<T>)
    ensures
        ({
            let m = merged(target, incoming);
            &&& target.len() <= m.len()
            &&& forall|name: Seq<char>| #[trigger]
                has_name(m, name) <==> has_name(target, name) || has_name(incoming, name)
            &&& forall|j: int|
                0 <= j < target.len() ==> (#[trigger] m[j]).entry_name() == target[j].entry_name()
            &&& forall|j: int|
                0 <= j < m.len() && index_named(m, (#[trigger] m[j]).entry_name()) == j && has_name(
                    incoming,
                    m[j].entry_name(),
                ) ==> m[j] == incoming[last_named(incoming, m[j].entry_name())]
            &&& forall|j: int|
                0 <= j < target.len() && !(index_named(m, (#[trigger] m[j]).entry_name()) == j
                    && has_name(incoming, m[j].entry_name())) ==> m[j] == target[j]
            &&& forall|j: int|
                target.len() <= j < m.len() ==> index_named(m, (#[trigger] m[j]).entry_name()) == j
        }),
    decreases incoming.len(),
{
    if incoming.len() > 0 {
        let front = incoming.drop_last();
        let e = incoming.last();
        let name = e.entry_name();
        let p = merged(target, front);
        let m = merged(target, incoming);
        lemma_merged(target, front);
        lemma_index_named(p, name);
        let at = index_named(p, name);
        assert forall|n: Seq<char>| #[trigger] has_name(m, n) <==> has_name(target, n) || has_name(
            incoming,
            n,
        ) by {
            lemma_has_name_put(p, e, n);
            lemma_has_name_push(front, e, n);
            assert(front.push(e) == incoming);
        }
        assert forall|j: int| 0 <= j < m.len() implies (#[trigger] m[j]).entry_name() == if j
            < p.len() {
            p[j].entry_name()
        } else {
            name
        } by {
            if j < p.len() && at < p.len() && j == at {
                assert(p[at].entry_name() == name);
            }
        }
        assert forall|j: int| 0 <= j < m.len() implies index_named(
            m,
            (#[trigger] m[j]).entry_name(),
        ) == if j < p.len() {
            index_named(p, p[j].entry_name())
        } else {
            j
        } by {
            let n = m[j].entry_name();
            lemma_index_named(m, n);
            lemma_index_named(p, n);
            if j < p.len() {
                assert(has_name(p, n));
                let k = index_named(p, n);
                assert forall|i: int| 0 <= i < k implies (#[trigger] m[i]).entry_name()
                    != m[k].entry_name() by {
                    assert(p[i].entry_name() != n);
                }
                lemma_index_is(m, k);
            } else {
                assert(at == p.len());
                assert forall|i: int| 0 <= i < j implies (#[trigger] m[i]).entry_name()
                    != m[j].entry_name() by {
                    assert(p[i].entry_name() != name);
                }
                lemma_index_is(m, j);
            }
        }
        assert forall|j: int|
            0 <= j < m.len() && index_named(m, (#[trigger] m[j]).entry_name()) == j && has_name(
                incoming,
                m[j].entry_name(),
            ) implies m[j] == incoming[last_named(incoming, m[j].entry_name())] by {
            let n = m[j].entry_name();
            if n == name {
                if j < p.len() {
                    assert(p[j].entry_name() == name);
                    assert(j == at);
                }
                assert(m[j] == e);
            } else {
                assert(j < p.len());
                assert(m[j] == p[j]);
                lemma_has_name_push(front, e, n);
                assert(front.push(e) == incoming);
                lemma_last_named(front, n);
            }
        }
        assert forall|j: int|
            0 <= j < target.len() && !(index_named(m, (#[trigger] m[j]).entry_name()) == j
                && has_name(incoming, m[j].entry_name())) implies m[j] == target[j] by {
            let n = m[j].entry_name();
            assert(p[j].entry_name() == n);
            lemma_has_name_push(front, e, n);
            assert(front.push(e) == incoming);
            if n == name {
                assert(has_name(incoming, n));
                assert(j != at);
            }
            assert(m[j] == p[j]);
        }
    } else {
        assert forall|name: Seq<char>| !has_name(incoming, name) by {}
    }
}

proof fn lemma_has_name_push<T: NamedEntry>(entries: Seq<T>, entry: T, name: Seq<char>)
    ensures
        has_name(entries.push(entry), name) <==> has_name(entries, name) || entry.entry_name()
            == name,
{
    let more = entries.push(entry);
    if has_name(entries, name) {
        let i = choose|i: int|
            0 <= i < entries.len() && (#[trigger] entries[i]).entry_name() == name;
        assert(more[i] == entries[i]);
    }
    if entry.entry_name() == name {
        assert(more[entries.len() as int].entry_name() == name);
    }
    if has_name(more, name) {
        let i = choose|i: int| 0 <= i < more.len() && (#[trigger] more[i]).entry_name() == name;
        if i < entries.len() {
            assert(more[i] == entries[i]);
        }
    }
}

proof fn lemma_has_name_put<T: NamedEntry>(entries: Seq<T>, entry: T, name: Seq<char>)
    ensures
        has_name(put_named(entries, entry), name) <==> has_name(entries, name)
            || entry.entry_name() == name,
{
    let at = index_named(entries, entry.entry_name());
    lemma_index_named(entries, entry.entry_name());
    let more = put_named(entries, entry);
    if at >= entries.len() {
        lemma_has_name_push(entries, entry, name);
    } else {
        if has_name(entries, name) {
            let i = choose|i: int|
                0 <= i < entries.len() && (#[trigger] entries[i]).entry_name() == name;
            assert(more[i].entry_name() == name);
        }
        if entry.entry_name() == name {
            assert(more[at].entry_name() == name);
        }
        if has_name(more, name) {
            let i = choose|i: int| 0 <= i < more.len() && (#[trigger] more[i]).entry_name() == name;
            assert(entries[i].entry_name() == name);
        }
    }
}

/// After merging, a list has the names that either had, and no others.
pub proof fn law_merged_names<T: NamedEntry>(target: Seq<T>, incoming: Seq<T>, name: Seq<char>)
    ensures
        has_name(merged(target, incoming), name) <==> has_name(target, name) || has_name(
            incoming,
            name,
        ),
{
    lemma_merged(target, incoming);
}

/// Merging leaves each entry in its place whose name does not come in.
pub proof fn law_merging_keeps_other_entries<T: NamedEntry>(
    target: Seq<T>,
    incoming: Seq<T>,
    i: int,
)
    requires
        0 <= i < target.len(),
        !has_name(incoming, target[i].entry_name()),
    ensures
        target.len() <= merged(target, incoming).len(),
        merged(target, incoming)[i] == target[i],
{
    lemma_merged(target, incoming);
    assert(merged(target, incoming)[i].entry_name() == target[i].entry_name());
}

/// Of the entries that come in under one name the last is found under it.
pub proof fn law_last_incoming_entry_wins<T: NamedEntry>(
    target: Seq<T>,
    incoming: Seq<T>,
    name: Seq<char>,
)
    requires
        has_name(incoming, name),
    ensures
        ({
            let m = merged(target, incoming);
            &&& 0 <= index_named(m, name) < m.len()
            &&& m[index_named(m, name)] == incoming[last_named(incoming, name)]
        }),
{
    let m = merged(target, incoming);
    lemma_merged(target, incoming);
    assert(has_name(m, name));
    lemma_index_named(m, name);
    let i = index_named(m, name);
    assert(m[i].entry_name() == name);
}

/// A list in which no name stands twice is still such a list after merging,
/// whatever comes in.
pub proof fn law_merging_keeps_names_unique<T: NamedEntry>(target: Seq<T>, incoming: Seq<T>)
    requires
        names_unique(target),
    ensures
        names_unique(merged(target, incoming)),
{
    let m = merged(target, incoming);
    lemma_merged(target, incoming);
    assert forall|i: int, j: int| 0 <= i < j < m.len() implies (#[trigger] m[i]).entry_name() != (
    #[trigger] m[j]).entry_name() by {
        if j < target.len() {
            assert(m[i].entry_name() == target[i].entry_name());
            assert(m[j].entry_name() == target[j].entry_name());
        } else {
            lemma_index_named(m, m[j].entry_name());
        }
    }
}

/// Merging the same entries once more changes nothing.
pub proof fn law_merging_twice<T: NamedEntry>(target: Seq<T>, incoming: Seq<T>)
    ensures
        merged(merged(target, incoming), incoming) == merged(target, incoming),
{
    let m = merged(target, incoming);
    let again = merged(m, incoming);
    lemma_merged(target, incoming);
    lemma_merged(m, incoming);
    if again.len() > m.len() {
        let j = m.len() as int;
        let name = again[j].entry_name();
        assert(has_name(again, name));
        assert(has_name(m, name));
        let i = choose|i: int| 0 <= i < m.len() && (#[trigger] m[i]).entry_name() == name;
        lemma_index_named(again, name);
        assert(again[i].entry_name() == name);
    }
    assert forall|j: int| 0 <= j < m.len() implies #[trigger] again[j] == m[j] by {
        let name = m[j].entry_name();
        assert(again[j].entry_name() == name);
        lemma_index_named(again, name);
        lemma_index_named(m, name);
        assert(has_name(m, name));
        let k = index_named(m, name);
        assert forall|i: int| 0 <= i < k implies (#[trigger] again[i]).entry_name()
            != again[k].entry_name() by {
            assert(m[i].entry_name() != name);
        }
        lemma_index_is(again, k);
    }
}

/// Putting the cluster's kubeconfig into the user's once more changes nothing.
pub proof fn law_updating_twice(existing: Option<KubeconfigView>, stored: KubeconfigView)
    ensures
        updated_kubeconfig(Some(updated_kubeconfig(existing, stored)), stored)
            == updated_kubeconfig(existing, stored),
{
    reveal_strlit("v1");
    reveal_strlit("Config");
    let base = match existing {
        Some(config) => config,
        None => empty_kubeconfig(),
    };
    law_merging_twice(base.clusters, stored.clusters);
    law_merging_twice(base.contexts, stored.contexts);
    law_merging_twice(base.users, stored.users);
    law_merging_twice(base.extra, keyed(stored.extra));
}

/// An updated kubeconfig says what it is, and keeps what it said before.
pub proof fn law_updated_kubeconfig_has_version_and_kind(
    existing: Option<KubeconfigView>,
    stored: KubeconfigView,
)
    ensures
        updated_kubeconfig(existing, stored).api_version.len() > 0,
        updated_kubeconfig(existing, stored).kind.len() > 0,
        existing matches Some(config) ==> {
            &&& config.api_version.len() > 0 ==> updated_kubeconfig(existing, stored).api_version
                == config.api_version
            &&& config.kind.len() > 0 ==> updated_kubeconfig(existing, stored).kind == config.kind
        },
{
    reveal_strlit("v1");
    reveal_strlit("Config");
}

/// The fields of a kubeconfig as a map from their keys.
pub open spec fn field_map(fields: Seq<ExtraField>) -> Map<Seq<char>, serde_yaml::Value> {
    Map::new(
        |key: Seq<char>| has_name(fields, key),
        |key: Seq<char>| fields[index_named(fields, key)].value,
    )
}

/// As maps, the fields that come in take the place of those of the same key;
/// a field without a key does not come in.
pub proof fn law_merged_fields_as_maps(target: Seq<ExtraField>, incoming: Seq<ExtraField>)
    requires
        names_unique(target),
        names_unique(incoming),
    ensures
        names_unique(merged(target, keyed(incoming))),
        field_map(merged(target, keyed(incoming))) == field_map(target).union_prefer_right(
            field_map(incoming).remove(Seq::<char>::empty()),
        ),
{
    let some = keyed(incoming);
    let m = merged(target, some);
    law_merging_keeps_names_unique(target, some);
    lemma_keyed(incoming);
    lemma_merged(target, some);
    let left = field_map(m);
    let right = field_map(target).union_prefer_right(
        field_map(incoming).remove(Seq::<char>::empty()),
    );
    assert forall|key: Seq<char>| left.contains_key(key) <==> #[trigger] right.contains_key(key) by {
        lemma_empty_key(key);
        assert(has_name(m, key) <==> has_name(target, key) || has_name(some, key));
        assert(has_name(some, key) <==> has_name(incoming, key) && key.len() > 0);
    }
    assert forall|key: Seq<char>| #[trigger] left.contains_key(key) implies left[key]
        == right[key] by {
        lemma_empty_key(key);
        assert(has_name(some, key) <==> has_name(incoming, key) && key.len() > 0);
        lemma_index_named(m, key);
        let i = index_named(m, key);
        assert(m[i].entry_name() == key);
        if has_name(some, key) {
            lemma_last_named(some, key);
            lemma_index_named(incoming, key);
            let f = some[last_named(some, key)];
            let k = choose|k: int| 0 <= k < incoming.len() && incoming[k] == f;
            assert(incoming[k].entry_name() == key);
            assert(k == index_named(incoming, key));
        } else {
            assert(has_name(target, key));
            lemma_index_named(target, key);
            let k = index_named(target, key);
            assert(m[k].entry_name() == key);
            assert(i == k);
        }
    }
    assert(left =~= right);
}

proof fn lemma_empty_key(key: Seq<char>)
    ensures
        key.len() == 0 <==> key == Seq::<char>::empty(),
{
    assert(key.len() == 0 ==> key =~= Seq::<char>::empty());
}

proof fn lemma_keyed(fields: Seq<ExtraField>)
    ensures
        forall|key: Seq<char>| #[trigger]
            has_name(keyed(fields), key) <==> has_name(fields, key) && key.len() > 0,
        forall|i: int|
            0 <= i < keyed(fields).len() ==> exists|k: int|
                0 <= k < fields.len() && fields[k] == #[trigger] keyed(fields)[i],
    decreases fields.len(),
{
    reveal(Seq::filter);
    if fields.len() > 0 {
        let front = fields.drop_last();
        let last = fields.last();
        lemma_keyed(front);
        assert(front.push(last) == fields);
        assert forall|key: Seq<char>| #[trigger]
            has_name(keyed(fields), key) <==> has_name(fields, key) && key.len() > 0 by {
            lemma_has_name_push(front, last, key);
            lemma_has_name_push(keyed(front), last, key);
            assert(has_name(keyed(front), key) <==> has_name(front, key) && key.len() > 0);
        }
        assert forall|i: int| 0 <= i < keyed(fields).len() implies exists|k: int|
            0 <= k < fields.len() && fields[k] == #[trigger] keyed(fields)[i] by {
            if i < keyed(front).len() {
                assert(keyed(fields)[i] == keyed(front)[i]);
                let k = choose|k: int| 0 <= k < front.len() && front[k] == keyed(front)[i];
                assert(fields[k] == keyed(fields)[i]);
            } else {
                assert(fields[fields.len() - 1] == keyed(fields)[i]);
            }
        }
    }
}

/// An entry goes by the name that it holds, a field by its key.
pub proof fn law_entries_go_by_their_names(
    cluster: NamedCluster,
    context: NamedContext,
    user: NamedUser,
    field: ExtraField,
)
    ensures
        cluster.entry_name() == cluster.name@,
        context.entry_name() == context.name@,
        user.entry_name() == user.name@,
        field.entry_name() == field.key@,
{
}

/// What merging by name makes of a list: its entries keep their places and names;
/// one whose name does not come in, or that is not the first of its name, stays as
/// it is; under each name that comes in, the last entry that does is found first;
/// what is new stands behind, is one of those that came in, and has a name that
/// stands nowhere before it.
pub open spec fn is_merged_by_name<T: NamedEntry>(
    before: Seq<T>,
    incoming: Seq<T>,
    after: Seq<T>,
) -> bool {
    &&& before.len() <= after.len()
    &&& forall|i: int|
        0 <= i < before.len() ==> (#[trigger] after[i]).entry_name() == before[i].entry_name()
    &&& forall|i: int|
        0 <= i < before.len() && (forall|j: int|
            0 <= j < incoming.len() ==> (#[trigger] incoming[j]).entry_name()
                != before[i].entry_name()) ==> #[trigger] after[i] == before[i]
    &&& forall|h: int, i: int|
        0 <= h < i < before.len() && (#[trigger] before[h]).entry_name()
            == before[i].entry_name() ==> #[trigger] after[i] == before[i]
    &&& forall|j: int|
        0 <= j < incoming.len() && (forall|k: int|
            j < k < incoming.len() ==> (#[trigger] incoming[k]).entry_name()
                != incoming[j].entry_name()) ==> exists|p: int|
            0 <= p < after.len() && #[trigger] after[p] == #[trigger] incoming[j] && (forall|q: int|
                0 <= q < p ==> (#[trigger] after[q]).entry_name() != incoming[j].entry_name())
    &&& forall|p: int|
        before.len() <= p < after.len() ==> exists|j: int|
            0 <= j < incoming.len() && #[trigger] after[p] == #[trigger] incoming[j]
    &&& forall|q: int, p: int|
        before.len() <= p < after.len() && 0 <= q < p ==> (#[trigger] after[q]).entry_name() != (
        #[trigger] after[p]).entry_name()
}

/// Merging goes by name.
pub proof fn law_merging_goes_by_name<T: NamedEntry>(target: Seq<T>, incoming: Seq<T>)
    ensures
        is_merged_by_name(target, incoming, merged(target, incoming)),
{
    let m = merged(target, incoming);
    lemma_merged(target, incoming);
    assert forall|i: int|
        0 <= i < target.len() && (forall|j: int|
            0 <= j < incoming.len() ==> (#[trigger] incoming[j]).entry_name()
                != target[i].entry_name()) implies #[trigger] m[i] == target[i] by {
        assert(m[i].entry_name() == target[i].entry_name());
        assert(!has_name(incoming, target[i].entry_name()));
    }
    assert forall|h: int, i: int|
        0 <= h < i < target.len() && (#[trigger] target[h]).entry_name()
            == target[i].entry_name() implies #[trigger] m[i] == target[i] by {
        assert(m[h].entry_name() == target[h].entry_name());
        assert(m[i].entry_name() == target[i].entry_name());
        lemma_index_named(m, m[i].entry_name());
    }
    assert forall|j: int|
        0 <= j < incoming.len() && (forall|k: int|
            j < k < incoming.len() ==> (#[trigger] incoming[k]).entry_name()
                != incoming[j].entry_name()) implies exists|p: int|
        0 <= p < m.len() && #[trigger] m[p] == #[trigger] incoming[j] && (forall|q: int|
            0 <= q < p ==> (#[trigger] m[q]).entry_name() != incoming[j].entry_name()) by {
        let name = incoming[j].entry_name();
        assert(has_name(incoming, name));
        assert(has_name(m, name));
        lemma_index_named(m, name);
        lemma_last_is(incoming, j);
        let p = index_named(m, name);
        assert(m[p].entry_name() == name);
        assert(m[p] == incoming[j]);
    }
    assert forall|p: int| target.len() <= p < m.len() implies exists|j: int|
        0 <= j < incoming.len() && #[trigger] m[p] == #[trigger] incoming[j] by {
        let name = m[p].entry_name();
        assert(index_named(m, name) == p);
        assert(has_name(m, name));
        if has_name(target, name) {
            let i = choose|i: int|
                0 <= i < target.len() && (#[trigger] target[i]).entry_name() == name;
            assert(m[i].entry_name() == name);
            lemma_index_named(m, name);
        }
        lemma_last_named(incoming, name);
        assert(m[p] == incoming[last_named(incoming, name)]);
    }
    assert forall|q: int, p: int|
        target.len() <= p < m.len() && 0 <= q < p implies (#[trigger] m[q]).entry_name() != (
    #[trigger] m[p]).entry_name() by {
        lemma_index_named(m, m[p].entry_name());
    }
}

proof fn lemma_last_is<T: NamedEntry>(entries: Seq<T>, j: int)
    requires
        0 <= j < entries.len(),
        forall|k: int|
            j < k < entries.len() ==> (#[trigger] entries[k]).entry_name()
                != entries[j].entry_name(),
    ensures
        last_named(entries, entries[j].entry_name()) == j,
    decreases entries.len(),
{
    if j < entries.len() - 1 {
        assert(entries.last() == entries[entries.len() - 1]);
        assert forall|k: int| j < k < entries.drop_last().len() implies (
        #[trigger] entries.drop_last()[k]).entry_name() != entries.drop_last()[j].entry_name() by {
            assert(entries.drop_last()[k] == entries[k]);
        }
        lemma_last_is(entries.drop_last(), j);
    }
}

/// Merging two lists in one after the other is merging them in as one.
pub proof fn law_merging_in_turns<T: NamedEntry>(target: Seq<T>, one: Seq<T>, other: Seq<T>)
    ensures
        merged(merged(target, one), other) == merged(target, one + other),
    decreases other.len(),
{
    if other.len() == 0 {
        assert(one + other == one);
    } else {
        law_merging_in_turns(target, one, other.drop_last());
        assert((one + other).drop_last() == one + other.drop_last());
        assert((one + other).last() == other.last());
    }
}

/// Entries whose names are new, and differ, come behind the others in their order.
pub proof fn law_new_entries_come_behind<T: NamedEntry>(target: Seq<T>, incoming: Seq<T>)
    requires
        names_unique(incoming),
        forall|i: int, j: int|
            0 <= i < target.len() && 0 <= j < incoming.len() ==> (
            #[trigger] target[i]).entry_name() != (#[trigger] incoming[j]).entry_name(),
    ensures
        merged(target, incoming) == target + incoming,
    decreases incoming.len(),
{
    if incoming.len() == 0 {
        assert(target + incoming == target);
    } else {
        let front = incoming.drop_last();
        let last = incoming.last();
        assert forall|i: int, j: int| 0 <= i < j < front.len() implies (
        #[trigger] front[i]).entry_name() != (#[trigger] front[j]).entry_name() by {
            assert(incoming[i].entry_name() != incoming[j].entry_name());
        }
        assert forall|i: int, j: int|
            0 <= i < target.len() && 0 <= j < front.len() implies (
        #[trigger] target[i]).entry_name() != (#[trigger] front[j]).entry_name() by {
            assert(target[i].entry_name() != incoming[j].entry_name());
        }
        law_new_entries_come_behind(target, front);
        let m = target + front;
        lemma_index_named(m, last.entry_name());
        if has_name(m, last.entry_name()) {
            let i = choose|i: int|
                0 <= i < m.len() && (#[trigger] m[i]).entry_name() == last.entry_name();
            if i < target.len() {
                assert(target[i].entry_name() != incoming[incoming.len() - 1].entry_name());
            } else {
                assert(m[i] == incoming[i - target.len()]);
                assert(incoming[i - target.len()].entry_name() != incoming[incoming.len()
                    - 1].entry_name());
            }
        }
        assert(m.push(last) == target + incoming);
    }
}

/// What updating the user's kubeconfig makes of it. Clusters, contexts and users are
/// merged by name. The current context and the preferences are the cluster's where
/// it has them, and the user's otherwise. Version and kind are the user's, or what
/// every kubeconfig has where the user's holds none.
pub proof fn law_updating_merges_by_name(existing: KubeconfigView, stored: KubeconfigView)
    ensures
        ({
            let now = updated_kubeconfig(Some(existing), stored);
            &&& is_merged_by_name(existing.clusters, stored.clusters, now.clusters)
            &&& is_merged_by_name(existing.contexts, stored.contexts, now.contexts)
            &&& is_merged_by_name(existing.users, stored.users, now.users)
            &&& stored.current_context is Some ==> now.current_context == stored.current_context
            &&& stored.current_context is None ==> now.current_context == existing.current_context
            &&& stored.preferences is Some ==> now.preferences == stored.preferences
            &&& stored.preferences is None ==> now.preferences == existing.preferences
            &&& existing.api_version.len() > 0 ==> now.api_version == existing.api_version
            &&& existing.api_version.len() == 0 ==> now.api_version == "v1"@
            &&& existing.kind.len() > 0 ==> now.kind == existing.kind
            &&& existing.kind.len() == 0 ==> now.kind == "Config"@
        }),
{
    law_merging_goes_by_name(existing.clusters, stored.clusters);
    law_merging_goes_by_name(existing.contexts, stored.contexts);
    law_merging_goes_by_name(existing.users, stored.users);
}

/// What updating makes of the other fields: as a map from their keys, the user's,
/// with the cluster's over them, but for one without a key.
pub proof fn law_updating_keeps_other_fields(existing: KubeconfigView, stored: KubeconfigView)
    requires
        existing.well_formed(),
        stored.well_formed(),
    ensures
        field_map(updated_kubeconfig(Some(existing), stored).extra) == field_map(
            existing.extra,
        ).union_prefer_right(field_map(stored.extra).remove(Seq::<char>::empty())),
{
    law_merged_fields_as_maps(existing.extra, stored.extra);
}

/// A user without a kubeconfig gets what comes of an empty one: where no two entries
/// of the cluster's have the same name, the cluster's lists as they are.
pub proof fn law_first_kubeconfig_is_the_clusters(stored: KubeconfigView)
    requires
        names_unique(stored.clusters),
        names_unique(stored.contexts),
        names_unique(stored.users),
    ensures
        ({
            let now = updated_kubeconfig(None, stored);
            &&& now.clusters == stored.clusters
            &&& now.contexts == stored.contexts
            &&& now.users == stored.users
            &&& now.current_context == stored.current_context
            &&& now.preferences == stored.preferences
            &&& now.api_version == "v1"@
            &&& now.kind == "Config"@
        }),
{
    let none = empty_kubeconfig();
    law_new_entries_come_behind(none.clusters, stored.clusters);
    law_new_entries_come_behind(none.contexts, stored.contexts);
    law_new_entries_come_behind(none.users, stored.users);
    assert(none.clusters + stored.clusters == stored.clusters);
    assert(none.contexts + stored.contexts == stored.contexts);
    assert(none.users + stored.users == stored.users);
}

/// Merging two kubeconfigs in, one after the other, gives for each list what merging
/// their lists in as one gives.
pub proof fn law_kubeconfigs_merge_in_turns(
    target: KubeconfigView,
    one: KubeconfigView,
    other: KubeconfigView,
)
    ensures
        ({
            let now = merged_kubeconfig(merged_kubeconfig(target, one), other);
            &&& now.clusters == merged(target.clusters, one.clusters + other.clusters)
            &&& now.contexts == merged(target.contexts, one.contexts + other.contexts)
            &&& now.users == merged(target.users, one.users + other.users)
        }),
{
    law_merging_in_turns(target.clusters, one.clusters, other.clusters);
    law_merging_in_turns(target.contexts, one.contexts, other.contexts);
    law_merging_in_turns(target.users, one.users, other.users);
}

/// A field without a key does not come in; every other does, in its place.
pub proof fn law_fields_without_a_key(fields: Seq<ExtraField>, field: ExtraField)
    ensures
        keyed(Seq::<ExtraField>::empty()) == Seq::<ExtraField>::empty(),
        field.key@.len() == 0 ==> keyed(fields.push(field)) == keyed(fields),
        field.key@.len() > 0 ==> keyed(fields.push(field)) == keyed(fields).push(field),
{
    reveal(Seq::filter);
    assert(fields.push(field).drop_last() =~= fields);
}

/// A user without a kubeconfig is as good as one whose kubeconfig is empty.
pub proof fn law_no_kubeconfig_is_an_empty_one(existing: KubeconfigView, stored: KubeconfigView)
    requires
        existing.api_version.len() == 0 && existing.kind.len() == 0,
        existing.clusters.len() == 0 && existing.contexts.len() == 0 && existing.users.len() == 0,
        existing.current_context is None && existing.preferences is None,
        existing.extra.len() == 0,
    ensures
        updated_kubeconfig(None, stored) == updated_kubeconfig(Some(existing), stored),
{
    assert(existing =~= empty_kubeconfig());
}

/// What putting one kubeconfig into another makes of it: lists are merged by name, what
/// the incoming one sets takes the place of what was set, and the rest stays.
pub proof fn law_merging_kubeconfigs(target: KubeconfigView, incoming: KubeconfigView)
    ensures
        ({
            let now = merged_kubeconfig(target, incoming);
            &&& is_merged_by_name(target.clusters, incoming.clusters, now.clusters)
            &&& is_merged_by_name(target.contexts, incoming.contexts, now.contexts)
            &&& is_merged_by_name(target.users, incoming.users, now.users)
            &&& is_merged_by_name(target.extra, keyed(incoming.extra), now.extra)
            &&& incoming.current_context is Some ==> now.current_context
                == incoming.current_context
            &&& incoming.current_context is None ==> now.current_context == target.current_context
            &&& incoming.preferences is Some ==> now.preferences == incoming.preferences
            &&& incoming.preferences is None ==> now.preferences == target.preferences
            &&& now.api_version == target.api_version
            &&& now.kind == target.kind
        }),
{
    law_merging_goes_by_name(target.clusters, incoming.clusters);
    law_merging_goes_by_name(target.contexts, incoming.contexts);
    law_merging_goes_by_name(target.users, incoming.users);
    law_merging_goes_by_name(target.extra, keyed(incoming.extra));
}

} // verus!
