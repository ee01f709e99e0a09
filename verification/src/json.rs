//! JSON bodies: parsing and printing are left to `serde_json`; what this module
//! adds is the ordering of an object's members by key.
//!
//! A JSON value is opaque here. It is spoken of through its compact text, and
//! an object through the list of its members, each a key and a value.

use vstd::prelude::*;
use vstd::utf8::encode_utf8;

verus! {

/// A JSON value of `serde_json`. Nothing inside it is visible to the proofs.
#[verifier::external_type_specification]
#[verifier::external_body]
pub struct ExJsonValue(serde_json::Value);

/// One member of a JSON object.
#[derive(Debug)]
pub struct JsonMember {
    pub key: String,
    pub value: serde_json::Value,
}

/// A member as the contracts see it: its key, and the compact text of its value.
pub type MemberView = (Seq<char>, Seq<char>);

impl View for JsonMember {
    type V = MemberView;

    open spec fn view(&self) -> MemberView {
        (self.key@, json_text(self.value))
    }
}

/// The views of a list of members, in order.
pub open spec fn members_view(members: Seq<JsonMember>) -> Seq<MemberView> {
    members.map_values(|m: JsonMember| m@)
}

/// The views of an optional list of members.
pub open spec fn object_view(members: Option<Vec<JsonMember>>) -> Option<Seq<MemberView>> {
    match members {
        Some(list) => Some(members_view(list@)),
        None => None,
    }
}

/// The compact JSON text of a value: what `serde_json::to_string` writes for it.
pub uninterp spec fn json_text(value: serde_json::Value) -> Seq<char>;

/// What `serde_json::from_str` makes of a text, as the compact text of the
/// value it returns; `None` where it returns an error.
pub uninterp spec fn parsed_json(text: Seq<char>) -> Option<Seq<char>>;

/// The members of the JSON value with the given compact text, in the order in
/// which the value holds them; `None` where the value is no object.
pub uninterp spec fn object_members(json: Seq<char>) -> Option<Seq<MemberView>>;

/// The indented text that `serde_json::to_string_pretty` writes for an object
/// built from the given members, whose keys differ from one another, in the
/// given order.
pub uninterp spec fn pretty_object(members: Seq<MemberView>) -> Seq<char>;

/// No two members have the same key.
pub open spec fn distinct_keys(members: Seq<MemberView>) -> bool {
    forall|i: int, j: int|
        0 <= i < j < members.len() ==> #[trigger] members[i].0 != #[trigger] members[j].0
}

/// Calls `serde_json::from_str` for a `serde_json::Value`. Claimed: whether
/// the call succeeds, and the value it gives, depend on the text alone.
#[verifier::external_body]
pub(crate) fn parse_json(text: &str) -> (r: Option<serde_json::Value>)
    ensures
        match r {
            Some(value) => parsed_json(text@) == Some(json_text(value)),
            None => parsed_json(text@) is None,
        },
{
    serde_json::from_str::<serde_json::Value>(text).ok()
}

/// Calls `serde_json::to_string` on a value. Its result is the text that
/// `json_text` names; a value never fails to serialize, and should it, the
/// text is empty.
#[verifier::external_body]
pub(crate) fn compact_json(value: &serde_json::Value) -> (r: String)
    ensures
        r@ == json_text(*value),
{
    serde_json::to_string(value).unwrap_or_default()
}

/// Calls `serde_json::Value::as_object` and hands out the members of the
/// object in the order of its map, each with a copy of its key and value.
/// Claimed: whether the value is an object, and which members it has in which
/// order, is settled by the value; and, the object being a map, no key
/// comes twice.
#[verifier::external_body]
pub(crate) fn members_of(value: &serde_json::Value) -> (r: Option<Vec<JsonMember>>)
    ensures
        object_view(r) == object_members(json_text(*value)),
        r matches Some(list) ==> distinct_keys(members_view(list@)),
{
    value.as_object().map(
        |map| map.iter().map(|(k, v)| JsonMember { key: k.clone(), value: v.clone() }).collect(),
    )
}

/// Collects the members into a `serde_json::Map`, in order, and calls
/// `serde_json::to_string_pretty` on it. The keys must differ from one
/// another, so that the map holds the members as they are given. Claimed: the
/// text depends on the members' keys and values, in their order, alone.
#[verifier::external_body]
pub(crate) fn print_pretty(members: &Vec<JsonMember>) -> (r: String)
    requires
        distinct_keys(members_view(members@)),
    ensures
        r@ == pretty_object(members_view(members@)),
{
    let map: serde_json::Map<String, serde_json::Value> = members.iter().map(
        |m| (m.key.clone(), m.value.clone()),
    ).collect();
    serde_json::to_string_pretty(&map).unwrap_or_default()
}

/// Lexicographic order on byte strings: the first byte that differs decides,
/// and a proper prefix comes first.
pub open spec fn bytes_le(a: Seq<u8>, b: Seq<u8>) -> bool
    decreases a.len(),
{
    if a.len() == 0 {
        true
    } else if b.len() == 0 {
        false
    } else if a[0] != b[0] {
        a[0] < b[0]
    } else {
        bytes_le(a.skip(1), b.skip(1))
    }
}

/// The order of keys: byte-wise, on their UTF-8 encoding.
pub open spec fn key_le(a: Seq<char>, b: Seq<char>) -> bool {
    bytes_le(encode_utf8(a), encode_utf8(b))
}

/// No member stands before one with a smaller key.
pub open spec fn is_sorted(members: Seq<MemberView>) -> bool {
    forall|i: int, j: int|
        0 <= i < j < members.len() ==> key_le(#[trigger] members[i].0, #[trigger] members[j].0)
}

/// The keys ascend strictly: no member stands before one with a smaller key,
/// and no key comes twice.
pub open spec fn is_strictly_sorted(members: Seq<MemberView>) -> bool {
    is_sorted(members) && distinct_keys(members)
}

/// The members of the object that a text parses to, ordered by key; `None`
/// for a text that is no JSON or no object.
pub open spec fn sorted_members(text: Seq<char>) -> Option<Seq<MemberView>> {
    match parsed_json(text) {
        Some(json) => match object_members(json) {
            Some(members) => Some(sort_by_key(members)),
            None => None,
        },
        None => None,
    }
}

/// Where a member with the given key goes into a list: right behind the last
/// member whose key is not greater.
pub open spec fn insert_position(members: Seq<MemberView>, key: Seq<char>) -> int
    decreases members.len(),
{
    if members.len() == 0 {
        0
    } else if key_le(members.last().0, key) {
        members.len() as int
    } else {
        insert_position(members.drop_last(), key)
    }
}

/// The members ordered by key. Members with the same key keep their order.
pub open spec fn sort_by_key(members: Seq<MemberView>) -> Seq<MemberView>
    decreases members.len(),
{
    if members.len() == 0 {
        members
    } else {
        let sorted = sort_by_key(members.drop_last());
        sorted.insert(insert_position(sorted, members.last().0), members.last())
    }
}

/// Of two byte strings, one is not greater than the other.
pub proof fn lemma_bytes_le_total(a: Seq<u8>, b: Seq<u8>)
    ensures
        bytes_le(a, b) || bytes_le(b, a),
    decreases a.len(),
{
    if a.len() > 0 && b.len() > 0 && a[0] == b[0] {
        lemma_bytes_le_total(a.skip(1), b.skip(1));
    }
}

/// The order on byte strings is transitive.
pub proof fn lemma_bytes_le_trans(a: Seq<u8>, b: Seq<u8>, c: Seq<u8>)
    requires
        bytes_le(a, b),
        bytes_le(b, c),
    ensures
        bytes_le(a, c),
    decreases a.len(),
{
    if a.len() > 0 && b.len() > 0 && c.len() > 0 && a[0] == b[0] && b[0] == c[0] {
        lemma_bytes_le_trans(a.skip(1), b.skip(1), c.skip(1));
    }
}

/// The insert position is in range; every member before it has a key that is
/// not greater, and every member from it on has a greater key.
pub proof fn lemma_insert_position(members: Seq<MemberView>, key: Seq<char>)
    requires
        is_sorted(members),
    ensures
        0 <= insert_position(members, key) <= members.len(),
        forall|i: int| 0 <= i < insert_position(members, key) ==> key_le(#[trigger] members[i].0, key),
        forall|i: int|
            insert_position(members, key) <= i < members.len() ==> !key_le(
                #[trigger] members[i].0,
                key,
            ),
    decreases members.len(),
{
    if members.len() == 0 {
    } else if key_le(members.last().0, key) {
        assert forall|i: int| 0 <= i < members.len() implies key_le(
            #[trigger] members[i].0,
            key,
        ) by {
            if i < members.len() - 1 {
                lemma_bytes_le_trans(
                    encode_utf8(members[i].0),
                    encode_utf8(members.last().0),
                    encode_utf8(key),
                );
            }
        }
    } else {
        let init = members.drop_last();
        assert forall|i: int, j: int| 0 <= i < j < init.len() implies key_le(
            #[trigger] init[i].0,
            #[trigger] init[j].0,
        ) by {}
        lemma_insert_position(init, key);
        let p = insert_position(init, key);
        assert forall|i: int| 0 <= i < p implies key_le(#[trigger] members[i].0, key) by {
            assert(members[i] == init[i]);
        }
        assert forall|i: int| p <= i < members.len() implies !key_le(
            #[trigger] members[i].0,
            key,
        ) by {
            if i < init.len() {
                assert(members[i] == init[i]);
            }
        }
    }
}

/// Members whose keys are greater do not count for the insert position.
pub proof fn lemma_insert_position_skips(members: Seq<MemberView>, key: Seq<char>, i: int)
    requires
        0 <= i <= members.len(),
        forall|j: int| i <= j < members.len() ==> !key_le(#[trigger] members[j].0, key),
    ensures
        insert_position(members, key) == insert_position(members.take(i), key),
    decreases members.len() - i,
{
    if i == members.len() {
        assert(members.take(i) =~= members);
    } else {
        let init = members.drop_last();
        assert forall|j: int| i <= j < init.len() implies !key_le(#[trigger] init[j].0, key) by {}
        lemma_insert_position_skips(init, key, i);
        assert(init.take(i) =~= members.take(i));
    }
}

/// Sorting gives a sorted list.
pub proof fn lemma_sort_is_sorted(members: Seq<MemberView>)
    ensures
        is_sorted(sort_by_key(members)),
        sort_by_key(members).len() == members.len(),
    decreases members.len(),
{
    if members.len() > 0 {
        let sorted = sort_by_key(members.drop_last());
        let x = members.last();
        lemma_sort_is_sorted(members.drop_last());
        lemma_insert_position(sorted, x.0);
        let p = insert_position(sorted, x.0);
        let out = sorted.insert(p, x);
        assert forall|i: int, j: int| 0 <= i < j < out.len() implies key_le(
            #[trigger] out[i].0,
            #[trigger] out[j].0,
        ) by {
            if i == p && j > p {
                lemma_bytes_le_total(encode_utf8(sorted[j - 1].0), encode_utf8(x.0));
            }
        }
    }
}

/// Sorting keeps every member, as often as it occurs.
pub proof fn lemma_sort_is_permutation(members: Seq<MemberView>)
    ensures
        sort_by_key(members).to_multiset() == members.to_multiset(),
    decreases members.len(),
{
    broadcast use vstd::seq_lib::group_to_multiset_ensures;

    if members.len() > 0 {
        let init = members.drop_last();
        let sorted = sort_by_key(init);
        let x = members.last();
        lemma_sort_is_permutation(init);
        lemma_sort_is_sorted(init);
        lemma_insert_position(sorted, x.0);
        assert(init.push(x) =~= members);
    }
}

/// Where no key comes twice, sorting brings none in: the keys of the sorted
/// list ascend strictly, and each of its members is a member of the input.
pub proof fn lemma_sort_keeps_distinct_keys(members: Seq<MemberView>)
    requires
        distinct_keys(members),
    ensures
        is_strictly_sorted(sort_by_key(members)),
        forall|i: int|
            0 <= i < sort_by_key(members).len() ==> members.contains(
                #[trigger] sort_by_key(members)[i],
            ),
    decreases members.len(),
{
    lemma_sort_is_sorted(members);
    if members.len() > 0 {
        let init = members.drop_last();
        let x = members.last();
        let sorted = sort_by_key(init);
        assert forall|i: int, j: int| 0 <= i < j < init.len() implies #[trigger] init[i].0
            != #[trigger] init[j].0 by {}
        lemma_sort_keeps_distinct_keys(init);
        lemma_insert_position(sorted, x.0);
        let p = insert_position(sorted, x.0);
        let out = sorted.insert(p, x);
        assert forall|k: int| 0 <= k < sorted.len() implies members.contains(
            #[trigger] sorted[k],
        ) && sorted[k].0 != x.0 by {}
        assert forall|i: int| 0 <= i < out.len() implies members.contains(#[trigger] out[i]) by {}
        assert forall|i: int, j: int| 0 <= i < j < out.len() implies #[trigger] out[i].0
            != #[trigger] out[j].0 by {}
    }
}

/// A sorted list is left as it is.
pub proof fn lemma_sort_keeps_sorted(members: Seq<MemberView>)
    requires
        is_sorted(members),
    ensures
        sort_by_key(members) == members,
    decreases members.len(),
{
    if members.len() > 0 {
        let init = members.drop_last();
        assert forall|i: int, j: int| 0 <= i < j < init.len() implies key_le(
            #[trigger] init[i].0,
            #[trigger] init[j].0,
        ) by {}
        lemma_sort_keeps_sorted(init);
    }
}

/// Decides `bytes_le`.
pub fn bytes_not_greater(a: &[u8], b: &[u8]) -> (r: bool)
    ensures
        r == bytes_le(a@, b@),
{
    let mut i: usize = 0;
    assert(a@.skip(0) =~= a@ && b@.skip(0) =~= b@);
    while i < a.len() && i < b.len()
        invariant
            i <= a@.len(),
            i <= b@.len(),
            bytes_le(a@, b@) == bytes_le(a@.skip(i as int), b@.skip(i as int)),
        decreases a@.len() - i,
    {
        proof {
            let x = a@.skip(i as int);
            let y = b@.skip(i as int);
            assert(x.skip(1) =~= a@.skip(i as int + 1));
            assert(y.skip(1) =~= b@.skip(i as int + 1));
        }
        if a[i] != b[i] {
            return a[i] < b[i];
        }
        i += 1;
    }
    i == a.len()
}

/// Decides `key_le`.
pub fn key_not_greater(a: &str, b: &str) -> (r: bool)
    ensures
        r == key_le(a@, b@),
{
    bytes_not_greater(a.as_bytes(), b.as_bytes())
}

/// Finds where a member with the given key goes into a sorted list.
fn position_for(sorted: &Vec<JsonMember>, key: &str) -> (r: usize)
    ensures
        r == insert_position(members_view(sorted@), key@),
        r <= sorted@.len(),
{
    let ghost views = members_view(sorted@);
    let mut i: usize = sorted.len();
    proof {
        lemma_insert_position_skips(views, key@, i as int);
    }
    while i > 0
        invariant
            i <= sorted@.len(),
            views == members_view(sorted@),
            insert_position(views, key@) == insert_position(views.take(i as int), key@),
        decreases i,
    {
        let ghost prefix = views.take(i as int);
        if key_not_greater(sorted[i - 1].key.as_str(), key) {
            return i;
        }
        proof {
            assert(prefix.drop_last() =~= views.take(i - 1));
        }
        i -= 1;
    }
    0
}

/// Orders the members of an object by key, byte-wise ascending.
pub fn sort_members(members: Vec<JsonMember>) -> (r: Vec<JsonMember>)
    ensures
        members_view(r@) == sort_by_key(members_view(members@)),
{
    let ghost input = members_view(members@);
    let mut out: Vec<JsonMember> = Vec::new();
    let mut rest = members;
    let mut done: Ghost<int> = Ghost(0);
    while rest.len() > 0
        invariant
            0 <= done@ <= input.len(),
            members_view(rest@) == input.skip(done@),
            members_view(out@) == sort_by_key(input.take(done@)),
        decreases rest@.len(),
    {
        let ghost old_rest = rest@;
        let m = rest.remove(0);
        proof {
            let tail = input.skip(done@);
            assert(members_view(old_rest).len() == old_rest.len());
            assert(members_view(old_rest)[0] == m@);
            assert forall|k: int| 0 <= k < rest@.len() implies #[trigger] members_view(rest@)[k]
                == input.skip(done@ + 1)[k] by {
                assert(members_view(old_rest)[k + 1] == tail[k + 1]);
            }
            assert(input.take(done@ + 1).drop_last() =~= input.take(done@));
        }
        let p = position_for(&out, m.key.as_str());
        out.insert(p, m);
        proof {
            done@ = done@ + 1;
        }
    }
    assert(input.take(done@) =~= input);
    out
}

/// Parses a text as JSON and, if it is an object, hands out its members
/// ordered by key. Each key comes once, so the keys ascend strictly.
pub fn sorted_object(text: &str) -> (r: Option<Vec<JsonMember>>)
    ensures
        object_view(r) == sorted_members(text@),
        r matches Some(list) ==> is_strictly_sorted(members_view(list@)),
{
    match parse_json(text) {
        Some(value) => match members_of(&value) {
            Some(members) => {
                proof {
                    lemma_sort_keeps_distinct_keys(members_view(members@));
                }
                Some(sort_members(members))
            },
            None => None,
        },
        None => None,
    }
}

} // verus!
