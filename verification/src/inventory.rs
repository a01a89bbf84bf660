//! The player's hotbar selection, and the item given when a player picks a
//! block: which item identifiers a block may stand for, and the slot the
//! server fills.
use crate::configuration::PickItemConfig;
use crate::nbt::json::{
    lemma_json_entries_index, lemma_json_entries_len, view_json, view_json_entries, JsonNumber, JsonValue,
    JsonView,
};
use crate::text::{chars_of, string_from_chars};
use vstd::prelude::*;

verus! {

/// The player's inventory as the server tracks it.
#[derive(Debug)]
pub struct Inventory {
    /// The currently selected hotbar slot (0-8).
    current_slot: i16,
}

/// A hotbar slot outside `0..=8` was asked for.
#[derive(Debug, PartialEq, Eq, Structural)]
pub struct InvalidHotbarSlot;

impl Inventory {
    pub closed spec fn spec_current_slot(&self) -> i16 {
        self.current_slot
    }

    pub fn current_slot(&self) -> (r: i16)
        ensures
            r == self.spec_current_slot(),
    {
        self.current_slot
    }

    pub fn set_current_slot(&mut self, slot: i16)
        ensures
            final(self).spec_current_slot() == slot,
    {
        self.current_slot = slot;
    }

    /// Selects the hotbar slot a client asks for: slots `0..=8` are taken,
    /// any other is refused and the selection stays.
    pub fn select_hotbar_slot(&mut self, slot: i16) -> (r: Result<(), InvalidHotbarSlot>)
        ensures
            r is Ok <==> 0 <= slot <= 8,
            r is Ok ==> final(self).spec_current_slot() == slot,
            r is Err ==> final(self).spec_current_slot() == old(self).spec_current_slot(),
    {
        if !(0 <= slot && slot <= 8) {
            return Err(InvalidHotbarSlot);
        }
        self.set_current_slot(slot);
        Ok(())
    }
}

impl Default for Inventory {
    fn default() -> (r: Self)
        ensures
            r.spec_current_slot() == 0,
    {
        Self { current_slot: 0 }
    }
}

impl Clone for Inventory {
    fn clone(&self) -> (r: Self)
        ensures
            r.spec_current_slot() == self.spec_current_slot(),
    {
        Self { current_slot: self.current_slot }
    }
}

/// `s` starts with `p`.
pub open spec fn starts_with(s: Seq<char>, p: Seq<char>) -> bool {
    p.len() <= s.len() && s.take(p.len() as int) == p
}

/// `s` ends with `p`.
pub open spec fn ends_with(s: Seq<char>, p: Seq<char>) -> bool {
    p.len() <= s.len() && s.skip(s.len() - p.len()) == p
}

/// `p` occurs in `s` at `i`.
pub open spec fn occurs_at(s: Seq<char>, p: Seq<char>, i: int) -> bool {
    0 <= i && i + p.len() <= s.len() && s.subrange(i, i + p.len()) == p
}

/// Where `p` first occurs in `s`, if it does.
pub open spec fn first_occurrence(s: Seq<char>, p: Seq<char>) -> Option<int> {
    if exists|i: int| occurs_at(s, p, i) {
        Some(choose|i: int| occurs_at(s, p, i) && forall|j: int| 0 <= j < i ==> !occurs_at(s, p, j))
    } else {
        None
    }
}

/// `s` with the first occurrence of `p` replaced by `t` (`str::replacen`
/// with a count of 1).
pub open spec fn replace_first(s: Seq<char>, p: Seq<char>, t: Seq<char>) -> Seq<char> {
    match first_occurrence(s, p) {
        Some(i) => s.take(i) + t + s.skip(i + p.len()),
        None => s,
    }
}

/// `cs` with `c` appended unless it is already there.
pub open spec fn spec_push_unique(cs: Seq<Seq<char>>, c: Seq<char>) -> Seq<Seq<char>> {
    if cs.contains(c) {
        cs
    } else {
        cs.push(c)
    }
}

/// `candidates` with `candidate` appended when it is the `stem`-based
/// rewrite of a block whose identifier ends with `suffix`.
pub open spec fn push_if_suffix(
    candidates: Seq<Seq<char>>,
    b: Seq<char>,
    suffix: Seq<char>,
    replacement: Seq<char>,
) -> Seq<Seq<char>> {
    if ends_with(b, suffix) {
        spec_push_unique(candidates, b.take(b.len() - suffix.len()) + replacement)
    } else {
        candidates
    }
}

/// The item identifiers that a block identifier may stand for, in the
/// order they are tried: the block's own; for a potted plant the plant; for
/// wall torches, wall signs and wall hanging signs the standing kind; for
/// wall heads and wall skulls the identifier with the first `wall_head` or
/// `wall_skull` made `head` or `skull`. No identifier is listed twice.
pub open spec fn spec_item_candidates(b: Seq<char>) -> Seq<Seq<char>> {
    let c0 = seq![b];
    let c1 = if starts_with(b, "minecraft:potted_"@) {
        spec_push_unique(c0, "minecraft:"@ + b.skip(17))
    } else {
        c0
    };
    let c2 = push_if_suffix(c1, b, "_wall_torch"@, "_torch"@);
    let c3 = push_if_suffix(c2, b, "_wall_sign"@, "_sign"@);
    let c4 = push_if_suffix(c3, b, "_wall_hanging_sign"@, "_hanging_sign"@);
    let c5 = if ends_with(b, "wall_head"@) {
        spec_push_unique(c4, replace_first(b, "wall_head"@, "head"@))
    } else {
        c4
    };
    if ends_with(b, "wall_skull"@) {
        spec_push_unique(c5, replace_first(b, "wall_skull"@, "skull"@))
    } else {
        c5
    }
}

/// The views of the strings, in order.
pub open spec fn string_views(v: Seq<String>) -> Seq<Seq<char>> {
    v.map_values(|s: String| s@)
}

/// Whether two character sequences are equal.
fn same_chars(a: &[char], b: &[char]) -> (r: bool)
    ensures
        r == (a@ == b@),
{
    if a.len() != b.len() {
        return false;
    }
    let mut i: usize = 0;
    while i < a.len()
        invariant
            i <= a@.len(),
            a@.len() == b@.len(),
            forall|j: int| 0 <= j < i ==> a@[j] == b@[j],
        decreases a@.len() - i,
    {
        if a[i] != b[i] {
            return false;
        }
        i = i + 1;
    }
    assert(a@ =~= b@);
    true
}

/// Whether `p` occurs in `s` at `i`.
fn occurs_at_exec(s: &[char], p: &[char], i: usize) -> (r: bool)
    ensures
        r == occurs_at(s@, p@, i as int),
{
    if i > s.len() || p.len() > s.len() - i {
        return false;
    }
    let r = same_chars(&s[i..i + p.len()], p);
    assert(s@.subrange(i as int, i + p@.len()) == s@.subrange(i as int, (i + p.len()) as int));
    r
}

/// Whether `s` ends with `p`.
fn ends_with_exec(s: &[char], p: &[char]) -> (r: bool)
    ensures
        r == ends_with(s@, p@),
{
    if p.len() > s.len() {
        return false;
    }
    let r = occurs_at_exec(s, p, s.len() - p.len());
    assert(s@.subrange(s@.len() - p@.len(), s@.len() as int) =~= s@.skip(s@.len() - p@.len()));
    r
}

/// `s` with the first occurrence of `p` replaced by `t`.
fn replace_first_exec(s: &[char], p: &[char], t: &[char]) -> (r: Vec<char>)
    requires
        p@.len() > 0,
    ensures
        r@ == replace_first(s@, p@, t@),
{
    let mut i: usize = 0;
    while i < s.len()
        invariant
            i <= s@.len(),
            forall|j: int| 0 <= j < i ==> !occurs_at(s@, p@, j),
        decreases s@.len() - i,
    {
        if occurs_at_exec(s, p, i) {
            assert(first_occurrence(s@, p@) == Some(i as int)) by {
                let k = choose|k: int|
                    occurs_at(s@, p@, k) && forall|j: int| 0 <= j < k ==> !occurs_at(s@, p@, j);
                if k < i {
                } else if k > i {
                }
            }
            let mut out = vstd::slice::slice_to_vec(&s[0..i]);
            let mut k: usize = 0;
            while k < t.len()
                invariant
                    k <= t@.len(),
                    out@ == s@.take(i as int) + t@.take(k as int),
                decreases t@.len() - k,
            {
                out.push(t[k]);
                k = k + 1;
                assert(out@ =~= s@.take(i as int) + t@.take(k as int));
            }
            let start = i + p.len();
            let mut m: usize = start;
            let ghost head = out@;
            while m < s.len()
                invariant
                    start <= m <= s@.len(),
                    out@ == head + s@.subrange(start as int, m as int),
                decreases s@.len() - m,
            {
                out.push(s[m]);
                m = m + 1;
                assert(out@ =~= head + s@.subrange(start as int, m as int));
            }
            assert(t@.take(t@.len() as int) =~= t@);
            assert(s@.subrange(start as int, s@.len() as int) =~= s@.skip(start as int));
            return out;
        }
        i = i + 1;
    }
    assert(!(exists|j: int| occurs_at(s@, p@, j))) by {
        assert forall|j: int| !occurs_at(s@, p@, j) by {
            if j >= s@.len() {
                assert(!occurs_at(s@, p@, j));
            }
        }
    }
    vstd::slice::slice_to_vec(s)
}

/// Appends `candidate` unless an equal string is already there.
pub fn push_unique(candidates: &mut Vec<String>, candidate: String)
    ensures
        string_views(final(candidates)@) == spec_push_unique(
            string_views(old(candidates)@),
            candidate@,
        ),
{
    let ghost views = string_views(candidates@);
    let mut i: usize = 0;
    while i < candidates.len()
        invariant
            i <= candidates@.len(),
            candidates@ == old(candidates)@,
            views == string_views(candidates@),
            forall|j: int| 0 <= j < i ==> views[j] != candidate@,
        decreases candidates@.len() - i,
    {
        if candidates[i] == candidate {
            assert(views.contains(candidate@)) by {
                assert(views[i as int] == candidate@);
            }
            return ;
        }
        i = i + 1;
    }
    assert(!views.contains(candidate@));
    candidates.push(candidate);
    assert(string_views(candidates@) =~= views.push(candidate@));
}

/// Appends the stem of `b` followed by `replacement` when `b` ends with
/// `suffix`.
fn push_for_suffix(candidates: &mut Vec<String>, b: &[char], suffix: &str, replacement: &str)
    ensures
        string_views(final(candidates)@) == push_if_suffix(
            string_views(old(candidates)@),
            b@,
            suffix@,
            replacement@,
        ),
{
    let suffix_chars = chars_of(suffix);
    if ends_with_exec(b, suffix_chars.as_slice()) {
        let mut stem = vstd::slice::slice_to_vec(&b[0..b.len() - suffix_chars.len()]);
        let replacement_chars = chars_of(replacement);
        let mut k: usize = 0;
        let ghost head = stem@;
        while k < replacement_chars.len()
            invariant
                k <= replacement_chars@.len(),
                stem@ == head + replacement_chars@.take(k as int),
            decreases replacement_chars@.len() - k,
        {
            stem.push(replacement_chars[k]);
            k = k + 1;
            assert(stem@ =~= head + replacement_chars@.take(k as int));
        }
        assert(replacement_chars@.take(k as int) =~= replacement@);
        push_unique(candidates, string_from_chars(stem.as_slice()));
    }
}

/// The item identifiers that a block identifier may stand for, in the
/// order they are tried.
pub fn item_identifier_candidates(block_identifier: &str) -> (r: Vec<String>)
    ensures
        string_views(r@) == spec_item_candidates(block_identifier@),
{
    proof {
        reveal_strlit("minecraft:potted_");
        reveal_strlit("minecraft:");
        reveal_strlit("wall_head");
        reveal_strlit("wall_skull");
    }
    let b = chars_of(block_identifier);
    let mut candidates: Vec<String> = Vec::new();
    candidates.push(block_identifier.to_owned());
    assert(string_views(candidates@) =~= seq![block_identifier@]);
    let potted = chars_of("minecraft:potted_");
    if occurs_at_exec(b.as_slice(), potted.as_slice(), 0) {
        assert(b@.subrange(0, 17) =~= b@.take(17));
        let mut plant = chars_of("minecraft:");
        let mut k: usize = 17;
        let ghost head = plant@;
        while k < b.len()
            invariant
                17 <= k <= b@.len(),
                plant@ == head + b@.subrange(17, k as int),
            decreases b@.len() - k,
        {
            plant.push(b[k]);
            k = k + 1;
            assert(plant@ =~= head + b@.subrange(17, k as int));
        }
        assert(b@.subrange(17, b@.len() as int) =~= b@.skip(17));
        push_unique(&mut candidates, string_from_chars(plant.as_slice()));
    } else {
        assert(!starts_with(b@, "minecraft:potted_"@)) by {
            if starts_with(b@, "minecraft:potted_"@) {
                assert(b@.subrange(0, 17) =~= b@.take(17));
            }
        }
    }
    push_for_suffix(&mut candidates, b.as_slice(), "_wall_torch", "_torch");
    push_for_suffix(&mut candidates, b.as_slice(), "_wall_sign", "_sign");
    push_for_suffix(&mut candidates, b.as_slice(), "_wall_hanging_sign", "_hanging_sign");
    let wall_head = chars_of("wall_head");
    if ends_with_exec(b.as_slice(), wall_head.as_slice()) {
        let head = chars_of("head");
        let replaced = replace_first_exec(b.as_slice(), wall_head.as_slice(), head.as_slice());
        push_unique(&mut candidates, string_from_chars(replaced.as_slice()));
    }
    let wall_skull = chars_of("wall_skull");
    if ends_with_exec(b.as_slice(), wall_skull.as_slice()) {
        let skull = chars_of("skull");
        let replaced = replace_first_exec(b.as_slice(), wall_skull.as_slice(), skull.as_slice());
        push_unique(&mut candidates, string_from_chars(replaced.as_slice()));
    }
    candidates
}

/// The id that an item registry gives to `item`: that of its first entry
/// with that identifier.
pub open spec fn spec_item_id(registry: Seq<(Seq<char>, i32)>, item: Seq<char>) -> Option<i32>
    decreases registry.len(),
{
    if registry.len() == 0 {
        None
    } else if registry[0].0 == item {
        Some(registry[0].1)
    } else {
        spec_item_id(registry.drop_first(), item)
    }
}

/// The item id of the first candidate that the registry knows.
pub open spec fn spec_first_known(registry: Seq<(Seq<char>, i32)>, candidates: Seq<Seq<char>>) -> Option<
    i32,
>
    decreases candidates.len(),
{
    if candidates.len() == 0 {
        None
    } else {
        match spec_item_id(registry, candidates[0]) {
            Some(id) => Some(id),
            None => spec_first_known(registry, candidates.drop_first()),
        }
    }
}

/// The views of the registry entries.
pub open spec fn registry_views(registry: Seq<(String, i32)>) -> Seq<(Seq<char>, i32)> {
    registry.map_values(|e: (String, i32)| (e.0@, e.1))
}

/// The id that the item registry gives to `item`.
pub fn item_id(registry: &[(String, i32)], item: &str) -> (r: Option<i32>)
    ensures
        r == spec_item_id(registry_views(registry@), item@),
{
    let ghost views = registry_views(registry@);
    let wanted = item.to_owned();
    assert(views.skip(0) =~= views);
    let mut i: usize = 0;
    while i < registry.len()
        invariant
            i <= registry@.len(),
            views == registry_views(registry@),
            views.len() == registry@.len(),
            wanted@ == item@,
            spec_item_id(views, item@) == spec_item_id(views.skip(i as int), item@),
        decreases registry@.len() - i,
    {
        assert(views.skip(i as int).drop_first() =~= views.skip(i + 1));
        assert(views.skip(i as int)[0] == (registry@[i as int].0@, registry@[i as int].1));
        if registry[i].0 == wanted {
            return Some(registry[i].1);
        }
        i = i + 1;
    }
    None
}

/// The item that a picked block gives: the id of the first of its candidate
/// identifiers that the item registry knows.
pub fn resolve_item_id_for_block(registry: &[(String, i32)], block_identifier: &str) -> (r: Option<
    i32,
>)
    ensures
        r == spec_first_known(registry_views(registry@), spec_item_candidates(block_identifier@)),
{
    let candidates = item_identifier_candidates(block_identifier);
    let ghost cands = string_views(candidates@);
    assert(cands.skip(0) =~= cands);
    let mut i: usize = 0;
    while i < candidates.len()
        invariant
            i <= candidates@.len(),
            cands == string_views(candidates@),
            cands == spec_item_candidates(block_identifier@),
            cands.len() == candidates@.len(),
            spec_first_known(registry_views(registry@), cands) == spec_first_known(
                registry_views(registry@),
                cands.skip(i as int),
            ),
        decreases candidates@.len() - i,
    {
        assert(cands.skip(i as int).drop_first() =~= cands.skip(i + 1));
        assert(cands.skip(i as int)[0] == candidates@[i as int]@);
        match item_id(registry, candidates[i].as_str()) {
            Some(id) => return Some(id),
            None => {},
        }
        i = i + 1;
    }
    None
}

/// The inventory packet that picking a block sends: the slot it fills, and
/// the item and count put there.
#[derive(Debug, PartialEq, Eq, Structural)]
pub struct SlotUpdate {
    pub slot: Option<i32>,
    pub item: Option<PickedItem>,
}

/// An item and how many of it.
#[derive(Debug, Clone, Copy, PartialEq, Eq, Structural)]
pub struct PickedItem {
    pub id: i32,
    pub count: i32,
}

/// What picking a block does. Nothing when picking is off; otherwise an
/// inventory packet, which names the selected hotbar slot when the world
/// has a block there, and puts the block's item in it, `stack_size` of
/// them, when the item is known.
pub fn pick_item_update(
    config: &PickItemConfig,
    current_slot: i16,
    block_found: bool,
    item: Option<i32>,
) -> (r: Option<SlotUpdate>)
    ensures
        !config.enabled ==> r is None,
        config.enabled && !block_found ==> r == Some(SlotUpdate { slot: None, item: None }),
        config.enabled && block_found ==> r == Some(
            SlotUpdate {
                slot: Some(current_slot as i32),
                item: match item {
                    Some(id) => Some(PickedItem { id, count: config.stack_size }),
                    None => None,
                },
            },
        ),
{
    if !config.enabled {
        return None;
    }
    if !block_found {
        return Some(SlotUpdate { slot: None, item: None });
    }
    let item = match item {
        Some(id) => Some(PickedItem { id, count: config.stack_size }),
        None => None,
    };
    Some(SlotUpdate { slot: Some(current_slot as i32), item })
}

/// The value of the first entry named `key` of a JSON object; `None` for a
/// missing key or a value that is not an object.
pub open spec fn json_get(j: JsonView, key: Seq<char>) -> Option<JsonView> {
    match j {
        JsonView::Object(es) => first_entry(es, key),
        _ => None,
    }
}

/// The value of the first entry named `key`.
pub open spec fn first_entry(es: Seq<(Seq<char>, JsonView)>, key: Seq<char>) -> Option<JsonView>
    decreases es.len(),
{
    if es.len() == 0 {
        None
    } else if es[0].0 == key {
        Some(es[0].1)
    } else {
        first_entry(es.drop_first(), key)
    }
}

/// The item of one entry of the registry report: its identifier and its
/// `protocol_id`, when that is an integer in the range of `i32`.
pub open spec fn spec_report_item(e: (Seq<char>, JsonView)) -> Option<(Seq<char>, i32)> {
    match json_get(e.1, "protocol_id"@) {
        Some(JsonView::Number(JsonNumber::Int(i))) => if i32::MIN <= i <= i32::MAX {
            Some((e.0, i as i32))
        } else {
            None
        },
        _ => None,
    }
}

/// The items of the entries that have one, in order.
pub open spec fn spec_report_items(es: Seq<(Seq<char>, JsonView)>) -> Seq<(Seq<char>, i32)>
    decreases es.len(),
{
    if es.len() == 0 {
        Seq::empty()
    } else {
        spec_report_items(es.drop_last()) + match spec_report_item(es.last()) {
            Some(item) => seq![item],
            None => Seq::empty(),
        }
    }
}

/// The item registry in a registries report: the entries of the object
/// `entries` of `minecraft:item`, each with its protocol id; `None` when
/// the report has no such object.
pub open spec fn spec_item_registry(report: JsonView) -> Option<Seq<(Seq<char>, i32)>> {
    match json_get(report, "minecraft:item"@) {
        Some(item) => match json_get(item, "entries"@) {
            Some(JsonView::Object(es)) => Some(spec_report_items(es)),
            _ => None,
        },
        None => None,
    }
}

/// The value of the first entry named `key` of an object.
fn get_field<'a>(j: &'a JsonValue, key: &str) -> (r: Option<&'a JsonValue>)
    ensures
        match r {
            Some(v) => json_get(j@, key@) == Some(v@),
            None => json_get(j@, key@) is None,
        },
{
    match j {
        JsonValue::Object(entries) => {
            let ghost views = view_json_entries(entries@);
            proof {
                lemma_json_entries_len(entries@);
                assert(views.skip(0) =~= views);
                assert(j@ == JsonView::Object(views));
            }
            let wanted = key.to_owned();
            let mut i: usize = 0;
            while i < entries.len()
                invariant
                    i <= entries@.len(),
                    views == view_json_entries(entries@),
                    views.len() == entries@.len(),
                    wanted@ == key@,
                    j@ == JsonView::Object(views),
                    first_entry(views, key@) == first_entry(views.skip(i as int), key@),
                decreases entries@.len() - i,
            {
                proof {
                    lemma_json_entries_index(entries@, i as int);
                    assert(views.skip(i as int).drop_first() =~= views.skip(i + 1));
                    assert(views.skip(i as int)[0] == views[i as int]);
                }
                if entries[i].0 == wanted {
                    assert(views[i as int].1 == view_json(&entries@[i as int].1));
                    return Some(&entries[i].1);
                }
                i = i + 1;
            }
            None
        },
        _ => None,
    }
}

/// Reads the item registry out of a registries report.
pub fn item_registry_from_report(report: &JsonValue) -> (r: Option<Vec<(String, i32)>>)
    ensures
        match r {
            Some(items) => spec_item_registry(report@) == Some(registry_views(items@)),
            None => spec_item_registry(report@) is None,
        },
{
    proof {
        reveal_strlit("minecraft:item");
        reveal_strlit("entries");
        reveal_strlit("protocol_id");
    }
    let item = match get_field(report, "minecraft:item") {
        Some(item) => item,
        None => return None,
    };
    let entries = match get_field(item, "entries") {
        Some(JsonValue::Object(entries)) => entries,
        _ => return None,
    };
    let ghost views = view_json_entries(entries@);
    proof {
        lemma_json_entries_len(entries@);
    }
    let mut out: Vec<(String, i32)> = Vec::new();
    let mut i: usize = 0;
    while i < entries.len()
        invariant
            i <= entries@.len(),
            views == view_json_entries(entries@),
            views.len() == entries@.len(),
            registry_views(out@) == spec_report_items(views.take(i as int)),
        decreases entries@.len() - i,
    {
        proof {
            lemma_json_entries_index(entries@, i as int);
            assert(views.take(i + 1).drop_last() =~= views.take(i as int));
            assert(views.take(i + 1).last() == views[i as int]);
        }
        let ghost before = out@;
        match get_field(&entries[i].1, "protocol_id") {
            Some(JsonValue::Number(JsonNumber::Int(id))) => {
                if i32::MIN as i64 <= *id && *id <= i32::MAX as i64 {
                    out.push((entries[i].0.clone(), *id as i32));
                    assert(registry_views(out@) =~= registry_views(before).push(
                        (entries@[i as int].0@, *id as i32),
                    ));
                }
            },
            _ => {},
        }
        i = i + 1;
        assert(registry_views(out@) =~= spec_report_items(views.take(i as int)));
    }
    assert(views.take(i as int) =~= views);
    Some(out)
}

} // verus!
