//! The last known state of the lights and groups, what each target stands
//! for, and how the state is updated from polls, from update results and
//! ahead of them.

use vstd::prelude::*;
use crate::client::{display_name_seq, Battery, Group, Light, TargetResult, UpdateRequest};
use crate::keyed::Keyed;
use crate::settings::{key_seq, lemma_kind_names_differ, Target};
use crate::text::{chars_of, same_text, string_of_range};

verus! {

/// How long after a user's change a poll may not overwrite the lights that
/// the change touched, in milliseconds.
pub const USER_GRACE_MS: u64 = 1500;

/// The lights and groups as last polled. `fetched_at` is the time of the
/// poll on the plugin's monotonic clock, in milliseconds.
#[derive(Debug)]
pub struct Snapshot {
    pub lights: Vec<Light>,
    pub groups: Vec<Group>,
    pub fetched_at: Option<u64>,
}

/// When each target was last changed by the user, by its key, in
/// milliseconds on the plugin's monotonic clock.
pub type TouchLog = Keyed<u64>;

/// What is known of each light's battery, by light id: `None` where the
/// light has no battery.
pub type BatteryCache = Keyed<Option<Battery>>;

/// The characters of each string.
pub open spec fn texts(v: Seq<String>) -> Seq<Seq<char>> {
    v.map_values(|s: String| s@)
}

/// The ids of the lights, in order.
pub open spec fn light_ids(lights: Seq<Light>) -> Seq<Seq<char>> {
    lights.map_values(|l: Light| l.id@)
}

/// `i` is the first group named `name`.
pub open spec fn is_first_group(groups: Seq<Group>, name: Seq<char>, i: int) -> bool {
    &&& 0 <= i < groups.len()
    &&& groups[i].name@ == name
    &&& forall|j: int| 0 <= j < i ==> groups[j].name@ != name
}

/// The members of the first group named `name`, or none.
pub open spec fn group_members(groups: Seq<Group>, name: Seq<char>) -> Seq<Seq<char>> {
    if exists|i: int| is_first_group(groups, name, i) {
        texts(groups[choose|i: int| is_first_group(groups, name, i)].members@)
    } else {
        Seq::<Seq<char>>::empty()
    }
}

/// The ids of the lights that a target stands for: the light itself, the
/// members of the group, or every light.
pub open spec fn member_ids_spec(
    lights: Seq<Light>,
    groups: Seq<Group>,
    kind: Seq<char>,
    id: Seq<char>,
) -> Seq<Seq<char>> {
    if kind == "light"@ {
        seq![id]
    } else if kind == "group"@ {
        group_members(groups, id)
    } else if kind == "all"@ {
        light_ids(lights)
    } else {
        Seq::<Seq<char>>::empty()
    }
}

/// The lights, in snapshot order, whose id is among `ids`.
pub open spec fn members_spec(lights: Seq<Light>, ids: Seq<Seq<char>>) -> Seq<Light> {
    lights.filter(|l: Light| ids.contains(l.id@))
}

/// Whether the target names a light or group that the snapshot holds, or
/// is "all".
pub open spec fn target_exists_spec(
    lights: Seq<Light>,
    groups: Seq<Group>,
    kind: Seq<char>,
    id: Seq<char>,
) -> bool {
    if kind == "light"@ {
        exists|i: int| 0 <= i < lights.len() && lights[i].id@ == id
    } else if kind == "group"@ {
        exists|i: int| 0 <= i < groups.len() && groups[i].name@ == id
    } else {
        kind == "all"@
    }
}

/// The lights of `s` that are reachable.
pub open spec fn reachable_of(s: Seq<Light>) -> Seq<Light> {
    s.filter(|l: Light| l.reachable)
}

/// The lights an aggregate averages over: the reachable members, or all
/// members where none is reachable.
pub open spec fn basis_of(members: Seq<Light>) -> Seq<Light> {
    if reachable_of(members).len() == 0 { members } else { reachable_of(members) }
}

/// The sum of the lights' brightness.
pub open spec fn brightness_sum(s: Seq<Light>) -> nat
    decreases s.len(),
{
    if s.len() == 0 { 0 } else { brightness_sum(s.drop_last()) + s.last().brightness as nat }
}

/// The sum of the lights' colour temperature.
pub open spec fn kelvin_sum(s: Seq<Light>) -> nat
    decreases s.len(),
{
    if s.len() == 0 { 0 } else { kelvin_sum(s.drop_last()) + s.last().kelvin as nat }
}

/// What an average divides by: the number of lights, at least one.
pub open spec fn divisor(s: Seq<Light>) -> nat {
    if s.len() == 0 { 1 } else { s.len() }
}

/// The first light that has a hue.
pub open spec fn first_hued(s: Seq<Light>) -> Option<Light>
    decreases s.len(),
{
    if s.len() == 0 {
        None
    } else if s[0].hue is Some {
        Some(s[0])
    } else {
        first_hued(s.drop_first())
    }
}

/// Whether any of the lights is on.
pub open spec fn any_on(s: Seq<Light>) -> bool {
    exists|i: int| 0 <= i < s.len() && s[i].on
}

/// Whether any of the lights can show colour.
pub open spec fn any_color_capable(s: Seq<Light>) -> bool {
    exists|i: int| 0 <= i < s.len() && s[i].color_capable
}

/// The name an aggregate shows: the light's display name, the group's name,
/// or "All lights".
pub open spec fn aggregate_name(kind: Seq<char>, id: Seq<char>, members: Seq<Light>) -> Seq<char> {
    if kind == "light"@ {
        if members.len() > 0 { display_name_seq(members[0]) } else { Seq::<char>::empty() }
    } else if kind == "group"@ {
        id
    } else {
        "All lights"@
    }
}

/// The combined state of the lights a target stands for.
#[derive(Debug, PartialEq)]
pub struct Aggregate {
    pub name: String,
    pub any_on: bool,
    pub brightness: u8,
    pub kelvin: u16,
    pub hue: Option<u32>,
    pub saturation: Option<u32>,
    pub reachable: bool,
    pub color_capable: bool,
}

impl Clone for Aggregate {
    fn clone(&self) -> (r: Self)
        ensures
            r == *self,
    {
        Aggregate {
            name: self.name.clone(),
            any_on: self.any_on,
            brightness: self.brightness,
            kelvin: self.kelvin,
            hue: self.hue,
            saturation: self.saturation,
            reachable: self.reachable,
            color_capable: self.color_capable,
        }
    }
}

/// What `aggregate` gives for a target whose members are `members`.
pub open spec fn aggregate_matches(a: Aggregate, kind: Seq<char>, id: Seq<char>, members: Seq<Light>) -> bool {
    let reachable = reachable_of(members);
    let basis = basis_of(members);
    &&& a.name@ == aggregate_name(kind, id, members)
    &&& a.any_on == any_on(reachable)
    &&& a.brightness as nat == brightness_sum(basis) / divisor(basis)
    &&& a.kelvin as nat == kelvin_sum(basis) / divisor(basis)
    &&& a.hue == match first_hued(basis) { Some(l) => l.hue, None => None }
    &&& a.saturation == match first_hued(basis) { Some(l) => l.saturation, None => None }
    &&& a.reachable == (reachable.len() > 0)
    &&& a.color_capable == any_color_capable(members)
}

/// What an aggregate says of its lights: it is reachable when some light
/// is, on when some reachable light is on, colour-capable when some light
/// is; and where all its lights share a brightness and a temperature, those
/// are its levels.
pub proof fn lemma_aggregate_meaning(a: Aggregate, kind: Seq<char>, id: Seq<char>, members: Seq<Light>, b0: u8, k0: u16)
    requires
        aggregate_matches(a, kind, id, members),
    ensures
        a.reachable <==> exists|i: int| 0 <= i < members.len() && (#[trigger] members[i]).reachable,
        a.any_on <==> exists|i: int| 0 <= i < members.len() && (#[trigger] members[i]).reachable && members[i].on,
        a.color_capable <==> exists|i: int| 0 <= i < members.len() && (#[trigger] members[i]).color_capable,
        members.len() > 0 && (forall|i: int| 0 <= i < members.len()
            ==> (#[trigger] members[i]).brightness == b0 && members[i].kelvin == k0)
            ==> a.brightness == b0 && a.kelvin == k0,
{
    broadcast use vstd::seq_lib::group_filter_ensures;
    let pred = |l: Light| l.reachable;
    let r = reachable_of(members);
    assert(r == members.filter(pred));
    if exists|i: int| 0 <= i < members.len() && (#[trigger] members[i]).reachable {
        let i = choose|i: int| 0 <= i < members.len() && (#[trigger] members[i]).reachable;
        assert(r.contains(members[i]));
    }
    if r.len() > 0 {
        assert(r.contains(r[0]));
        members.lemma_filter_contains_rev(pred, r[0]);
        assert(pred(r[0]));
    }
    if a.any_on {
        let j = choose|j: int| 0 <= j < r.len() && r[j].on;
        assert(r.contains(r[j]));
        members.lemma_filter_contains_rev(pred, r[j]);
        assert(pred(r[j]));
        let i = choose|i: int| 0 <= i < members.len() && members[i] == r[j];
        assert(members[i].reachable && members[i].on);
    }
    if exists|i: int| 0 <= i < members.len() && (#[trigger] members[i]).reachable && members[i].on {
        let i = choose|i: int| 0 <= i < members.len() && (#[trigger] members[i]).reachable && members[i].on;
        assert(r.contains(members[i]));
        let j = choose|j: int| 0 <= j < r.len() && r[j] == members[i];
        assert(r[j].on);
    }
    if members.len() > 0 && (forall|i: int| 0 <= i < members.len()
        ==> (#[trigger] members[i]).brightness == b0 && members[i].kelvin == k0) {
        let basis = basis_of(members);
        assert forall|j: int| 0 <= j < basis.len() implies (#[trigger] basis[j]).brightness == b0 && basis[j].kelvin == k0 by {
            if r.len() > 0 {
                assert(r.contains(r[j]));
                members.lemma_filter_contains_rev(pred, r[j]);
            }
        }
        lemma_level_sums(basis, b0, k0);
        let n = basis.len() as int;
        assert(n > 0);
        let bb = b0 as int;
        let kk = k0 as int;
        assert((n * bb) / n == bb) by (nonlinear_arith) requires n > 0;
        assert((n * kk) / n == kk) by (nonlinear_arith) requires n > 0;
    }
}

proof fn lemma_level_sums(s: Seq<Light>, b0: u8, k0: u16)
    requires
        forall|j: int| 0 <= j < s.len() ==> (#[trigger] s[j]).brightness == b0 && s[j].kelvin == k0,
    ensures
        brightness_sum(s) == s.len() * b0,
        kelvin_sum(s) == s.len() * k0,
    decreases s.len(),
{
    if s.len() > 0 {
        let t = s.drop_last();
        assert forall|j: int| 0 <= j < t.len() implies (#[trigger] t[j]).brightness == b0 && t[j].kelvin == k0 by {
            assert(t[j] == s[j]);
        }
        lemma_level_sums(t, b0, k0);
        assert(s.last() == s[s.len() - 1]);
        assert(s.len() * b0 == t.len() * b0 + b0) by (nonlinear_arith) requires s.len() == t.len() + 1;
        assert(s.len() * k0 == t.len() * k0 + k0) by (nonlinear_arith) requires s.len() == t.len() + 1;
    }
}

/// Whether `a` is what `aggregate` gives for `target` in `snapshot`.
pub open spec fn aggregate_result(snapshot: &Snapshot, target: &Target, a: Aggregate) -> bool {
    &&& target_exists_spec(snapshot.lights@, snapshot.groups@, target.kind@, target.id@)
    &&& aggregate_matches(
        a,
        target.kind@,
        target.id@,
        members_spec(
            snapshot.lights@,
            member_ids_spec(snapshot.lights@, snapshot.groups@, target.kind@, target.id@),
        ),
    )
}

/// What `aggregate` gives is determined by the snapshot and the target:
/// two results for the same target agree on reachability.
pub proof fn lemma_aggregate_determined(snapshot: &Snapshot, target: &Target)
    ensures
        forall|a: Aggregate, b: Aggregate| aggregate_result(snapshot, target, a)
            && aggregate_result(snapshot, target, b) ==> a.reachable == b.reachable,
{
}

/// Whether `ids` holds `id`.
pub fn contains_text(ids: &Vec<String>, id: &str) -> (r: bool)
    ensures
        r == texts(ids@).contains(id@),
{
    let mut i: usize = 0;
    while i < ids.len()
        invariant
            i <= ids@.len(),
            forall|j: int| 0 <= j < i ==> ids@[j]@ != id@,
        decreases ids.len() - i,
    {
        if same_text(ids[i].as_str(), id) {
            assert(texts(ids@)[i as int] == id@);
            return true;
        }
        i += 1;
    }
    proof {
        if texts(ids@).contains(id@) {
            let j = choose|j: int| 0 <= j < texts(ids@).len() && texts(ids@)[j] == id@;
            assert(ids@[j]@ == id@);
        }
    }
    false
}

proof fn lemma_filter_step<A>(s: Seq<A>, i: int, pred: spec_fn(A) -> bool)
    requires
        0 <= i < s.len(),
    ensures
        s.take(i + 1).filter(pred) == if pred(s[i]) {
            s.take(i).filter(pred).push(s[i])
        } else {
            s.take(i).filter(pred)
        },
{
    reveal_with_fuel(Seq::<_>::filter, 1);
    assert(s.take(i + 1).drop_last() == s.take(i));
}

proof fn lemma_sum_step(s: Seq<Light>, i: int)
    requires
        0 <= i < s.len(),
    ensures
        brightness_sum(s.take(i + 1)) == brightness_sum(s.take(i)) + s[i].brightness as nat,
        kelvin_sum(s.take(i + 1)) == kelvin_sum(s.take(i)) + s[i].kelvin as nat,
{
    assert(s.take(i + 1).drop_last() == s.take(i));
}

proof fn lemma_sum_bounds(s: Seq<Light>)
    ensures
        brightness_sum(s) <= 255 * s.len(),
        kelvin_sum(s) <= 65535 * s.len(),
    decreases s.len(),
{
    if s.len() > 0 {
        lemma_sum_bounds(s.drop_last());
    }
}

/// `j` is the first light with id `id`.
pub open spec fn is_first_light(lights: Seq<Light>, id: Seq<char>, j: int) -> bool {
    &&& 0 <= j < lights.len()
    &&& lights[j].id@ == id
    &&& forall|k: int| 0 <= k < j ==> lights[k].id@ != id
}

/// The index of the first light with id `id`, if any.
pub open spec fn first_light(lights: Seq<Light>, id: Seq<char>) -> Option<int> {
    if exists|j: int| is_first_light(lights, id, j) {
        Some(choose|j: int| is_first_light(lights, id, j))
    } else {
        None
    }
}

proof fn lemma_first_light(lights: Seq<Light>, id: Seq<char>, j: int)
    requires
        is_first_light(lights, id, j),
    ensures
        first_light(lights, id) == Some(j),
{
    let c = choose|c: int| is_first_light(lights, id, c);
    assert(is_first_light(lights, id, c));
    if c < j {
        assert(lights[c].id@ != id);
    } else if c > j {
        assert(lights[j].id@ != id);
    }
}

proof fn lemma_exists_first_light(lights: Seq<Light>, id: Seq<char>, i: int)
    requires
        0 <= i < lights.len(),
        lights[i].id@ == id,
    ensures
        exists|j: int| is_first_light(lights, id, j),
    decreases i,
{
    if exists|k: int| 0 <= k < i && lights[k].id@ == id {
        let k = choose|k: int| 0 <= k < i && lights[k].id@ == id;
        lemma_exists_first_light(lights, id, k);
    } else {
        assert(is_first_light(lights, id, i));
    }
}

/// The index of the first light with id `id`, if any.
pub fn find_light(lights: &Vec<Light>, id: &str) -> (r: Option<usize>)
    ensures
        match r {
            Some(j) => first_light(lights@, id@) == Some(j as int),
            None => first_light(lights@, id@) is None,
        },
{
    let mut j: usize = 0;
    while j < lights.len()
        invariant
            j <= lights@.len(),
            forall|k: int| 0 <= k < j ==> lights@[k].id@ != id@,
        decreases lights.len() - j,
    {
        if same_text(lights[j].id.as_str(), id) {
            proof {
                lemma_first_light(lights@, id@, j as int);
            }
            return Some(j);
        }
        j += 1;
    }
    proof {
        if exists|c: int| is_first_light(lights@, id@, c) {
            let c = choose|c: int| is_first_light(lights@, id@, c);
            assert(lights@[c].id@ != id@);
        }
    }
    None
}

/// The lights of `lights` whose id is among `ids`, in order.
fn select_members(lights: &Vec<Light>, ids: &Vec<String>) -> (r: Vec<Light>)
    ensures
        r@ == members_spec(lights@, texts(ids@)),
{
    let ghost pred = |l: Light| texts(ids@).contains(l.id@);
    let mut r: Vec<Light> = Vec::new();
    for i in 0..lights.len()
        invariant
            pred == (|l: Light| texts(ids@).contains(l.id@)),
            r@ == lights@.take(i as int).filter(pred),
    {
        proof {
            lemma_filter_step(lights@, i as int, pred);
        }
        if contains_text(ids, lights[i].id.as_str()) {
            r.push(lights[i].clone());
        }
    }
    assert(lights@.take(lights@.len() as int) == lights@);
    r
}

/// The reachable lights of `lights`, in order.
fn select_reachable(lights: &Vec<Light>) -> (r: Vec<Light>)
    ensures
        r@ == reachable_of(lights@),
{
    let ghost pred = |l: Light| l.reachable;
    let mut r: Vec<Light> = Vec::new();
    for i in 0..lights.len()
        invariant
            pred == (|l: Light| l.reachable),
            r@ == lights@.take(i as int).filter(pred),
    {
        proof {
            lemma_filter_step(lights@, i as int, pred);
        }
        if lights[i].reachable {
            r.push(lights[i].clone());
        }
    }
    assert(lights@.take(lights@.len() as int) == lights@);
    r
}

impl Snapshot {
    /// A snapshot that has not been polled yet.
    pub fn new() -> (s: Snapshot)
        ensures
            s.lights@.len() == 0,
            s.groups@.len() == 0,
            s.fetched_at is None,
    {
        Snapshot { lights: Vec::new(), groups: Vec::new(), fetched_at: None }
    }

    /// The ids of the lights that `target` stands for: the light's own id,
    /// the members of the first group of that name, every light's id, or
    /// none for any other kind.
    pub fn member_ids(&self, target: &Target) -> (ids: Vec<String>)
        ensures
            texts(ids@) == member_ids_spec(self.lights@, self.groups@, target.kind@, target.id@),
    {
        proof {
            lemma_kind_names_differ();
        }
        if same_text(target.kind.as_str(), "light") {
            let mut ids: Vec<String> = Vec::new();
            ids.push(target.id.clone());
            assert(texts(ids@) == seq![target.id@]);
            ids
        } else if same_text(target.kind.as_str(), "group") {
            let mut i: usize = 0;
            while i < self.groups.len()
                invariant
                    i <= self.groups@.len(),
                    target.kind@ == "group"@,
                    "light"@ != "group"@,
                    forall|j: int| 0 <= j < i ==> self.groups@[j].name@ != target.id@,
                decreases self.groups.len() - i,
            {
                if same_text(self.groups[i].name.as_str(), target.id.as_str()) {
                    proof {
                        let g = self.groups@;
                        assert(is_first_group(g, target.id@, i as int));
                        let c = choose|c: int| is_first_group(g, target.id@, c);
                        if c < i {
                            assert(g[c].name@ != target.id@);
                        } else if c > i {
                            assert(g[i as int].name@ != target.id@);
                        }
                    }
                    return crate::client::clone_strings(&self.groups[i].members);
                }
                i += 1;
            }
            let ids: Vec<String> = Vec::new();
            assert(texts(ids@) =~= Seq::<Seq<char>>::empty());
            ids
        } else if same_text(target.kind.as_str(), "all") {
            let mut ids: Vec<String> = Vec::new();
            for i in 0..self.lights.len()
                invariant
                    ids@.len() == i,
                    forall|j: int| 0 <= j < i ==> #[trigger] ids@[j]@ == self.lights@[j].id@,
            {
                ids.push(self.lights[i].id.clone());
            }
            assert(texts(ids@) =~= light_ids(self.lights@));
            ids
        } else {
            let ids: Vec<String> = Vec::new();
            assert(texts(ids@) =~= Seq::<Seq<char>>::empty());
            ids
        }
    }

    /// The lights that `target` stands for, in snapshot order.
    pub fn members(&self, target: &Target) -> (m: Vec<Light>)
        ensures
            m@ == members_spec(
                self.lights@,
                member_ids_spec(self.lights@, self.groups@, target.kind@, target.id@),
            ),
    {
        let ids = self.member_ids(target);
        select_members(&self.lights, &ids)
    }

    /// Whether `target` names a light or group the snapshot holds, or all.
    pub fn target_exists(&self, target: &Target) -> (r: bool)
        ensures
            r == target_exists_spec(self.lights@, self.groups@, target.kind@, target.id@),
    {
        proof {
            lemma_kind_names_differ();
        }
        if same_text(target.kind.as_str(), "light") {
            match find_light(&self.lights, target.id.as_str()) {
                Some(j) => {
                    assert(is_first_light(self.lights@, target.id@, j as int));
                    true
                },
                None => {
                    proof {
                        if exists|i: int| 0 <= i < self.lights@.len() && self.lights@[i].id@ == target.id@ {
                            let i = choose|i: int| 0 <= i < self.lights@.len() && self.lights@[i].id@ == target.id@;
                            lemma_exists_first_light(self.lights@, target.id@, i);
                        }
                    }
                    false
                },
            }
        } else if same_text(target.kind.as_str(), "group") {
            let mut i: usize = 0;
            while i < self.groups.len()
                invariant
                    i <= self.groups@.len(),
                    target.kind@ == "group"@,
                    "light"@ != "group"@,
                    forall|j: int| 0 <= j < i ==> self.groups@[j].name@ != target.id@,
                decreases self.groups.len() - i,
            {
                if same_text(self.groups[i].name.as_str(), target.id.as_str()) {
                    assert(self.groups@[i as int].name@ == target.id@);
                    return true;
                }
                i += 1;
            }
            false
        } else {
            same_text(target.kind.as_str(), "all")
        }
    }

    /// The combined state of what `target` stands for, or `None` where the
    /// snapshot does not hold it. Brightness and temperature are averaged
    /// over the reachable members (over all members where none is
    /// reachable); hue and saturation come from the first of those with a
    /// hue; it is on where a reachable member is on.
    pub fn aggregate(&self, target: &Target) -> (r: Option<Aggregate>)
        requires
            self.lights@.len() <= u32::MAX,
        ensures
            match r {
                None => !target_exists_spec(self.lights@, self.groups@, target.kind@, target.id@),
                Some(a) => aggregate_result(self, target, a),
            },
    {
        proof {
            lemma_kind_names_differ();
        }
        if !self.target_exists(target) {
            return None;
        }
        let members = self.members(target);
        proof {
            members_spec(
                self.lights@,
                member_ids_spec(self.lights@, self.groups@, target.kind@, target.id@),
            ).lemma_filter_len(|l: Light| member_ids_spec(self.lights@, self.groups@, target.kind@, target.id@).contains(l.id@));
        }
        let name = if same_text(target.kind.as_str(), "light") {
            if members.len() > 0 {
                members[0].display_name()
            } else {
                String::new()
            }
        } else if same_text(target.kind.as_str(), "group") {
            target.id.clone()
        } else {
            String::from_str("All lights")
        };
        let reachable = select_reachable(&members);
        proof {
            members@.lemma_filter_len(|l: Light| l.reachable);
        }
        let basis: &Vec<Light> = if reachable.len() == 0 { &members } else { &reachable };
        assert(basis@ == basis_of(members@));
        let mut bsum: u64 = 0;
        let mut ksum: u64 = 0;
        for i in 0..basis.len()
            invariant
                basis@.len() <= u32::MAX,
                bsum as nat == brightness_sum(basis@.take(i as int)),
                ksum as nat == kelvin_sum(basis@.take(i as int)),
        {
            proof {
                lemma_sum_step(basis@, i as int);
                lemma_sum_bounds(basis@.take(i as int));
            }
            bsum = bsum + basis[i].brightness as u64;
            ksum = ksum + basis[i].kelvin as u64;
        }
        assert(basis@.take(basis@.len() as int) == basis@);
        let count: u64 = if basis.len() == 0 { 1 } else { basis.len() as u64 };
        proof {
            lemma_sum_bounds(basis@);
            assert(bsum / count <= 255) by (nonlinear_arith)
                requires bsum <= 255 * basis@.len(), count >= 1, count >= basis@.len();
            assert(ksum / count <= 65535) by (nonlinear_arith)
                requires ksum <= 65535 * basis@.len(), count >= 1, count >= basis@.len();
        }
        let brightness = (bsum / count) as u8;
        let kelvin = (ksum / count) as u16;
        let mut i: usize = 0;
        while i < basis.len() && basis[i].hue.is_none()
            invariant
                i <= basis@.len(),
                first_hued(basis@) == first_hued(basis@.skip(i as int)),
            decreases basis.len() - i,
        {
            assert(basis@.skip(i as int).drop_first() == basis@.skip(i + 1));
            i += 1;
        }
        proof {
            assert(basis@.skip(0) == basis@);
        }
        let (hue, saturation) = if i < basis.len() {
            assert(basis@.skip(i as int)[0] == basis@[i as int]);
            (basis[i].hue, basis[i].saturation)
        } else {
            assert(basis@.skip(i as int).len() == 0);
            (None, None)
        };
        let mut on = false;
        let mut k: usize = 0;
        while k < reachable.len()
            invariant
                k <= reachable@.len(),
                on == exists|j: int| 0 <= j < k && reachable@[j].on,
            decreases reachable.len() - k,
        {
            if reachable[k].on {
                on = true;
            }
            k += 1;
        }
        let mut color = false;
        let mut m: usize = 0;
        while m < members.len()
            invariant
                m <= members@.len(),
                color == exists|j: int| 0 <= j < m && members@[j].color_capable,
            decreases members.len() - m,
        {
            if members[m].color_capable {
                color = true;
            }
            m += 1;
        }
        let a = Aggregate {
            name,
            any_on: on,
            brightness,
            kelvin,
            hue,
            saturation,
            reachable: reachable.len() != 0,
            color_capable: color,
        };
        Some(a)
    }
}


/// Whether the snapshot is older than `max_age_ms` at `now_ms`, or was
/// never taken.
pub fn is_stale(snapshot: &Snapshot, now_ms: u64, max_age_ms: u64) -> (r: bool)
    ensures
        r == match snapshot.fetched_at {
            Some(at) => elapsed(at, now_ms) > max_age_ms,
            None => true,
        },
{
    match snapshot.fetched_at {
        Some(at) => now_ms.saturating_sub(at) > max_age_ms,
        None => true,
    }
}

/// The time from `at` to `now`, zero where `now` is earlier.
pub open spec fn elapsed(at: u64, now: u64) -> nat {
    if now >= at { (now - at) as nat } else { 0 }
}

/// Whether a touch at `at` still protects its lights at `now`.
pub open spec fn fresh_touch(at: u64, now: u64) -> bool {
    elapsed(at, now) < USER_GRACE_MS
}

/// The touches still in force at `now`.
pub open spec fn prune_touches(log: Map<Seq<char>, u64>, now: u64) -> Map<Seq<char>, u64> {
    Map::new(|k: Seq<char>| log.dom().contains(k) && fresh_touch(log[k], now), |k: Seq<char>| log[k])
}

/// Notes that the user changed `target` at `now_ms`.
pub fn touch(log: &mut TouchLog, target: &Target, now_ms: u64)
    ensures
        final(log)@ == old(log)@.insert(key_seq(target.kind@, target.id@), now_ms),
{
    log.insert(target.key(), now_ms);
}

/// `i` is the first colon of `k`.
pub open spec fn is_first_colon(k: Seq<char>, i: int) -> bool {
    &&& 0 <= i < k.len()
    &&& k[i] == ':'
    &&& forall|j: int| 0 <= j < i ==> k[j] != ':'
}

/// A key cut at its first colon into kind and id (`str::split_once`).
pub open spec fn split_key(k: Seq<char>) -> Option<(Seq<char>, Seq<char>)> {
    if exists|i: int| is_first_colon(k, i) {
        let i = choose|i: int| is_first_colon(k, i);
        Some((k.take(i), k.skip(i + 1)))
    } else {
        None
    }
}

proof fn lemma_first_colon_unique(k: Seq<char>, i: int)
    requires
        is_first_colon(k, i),
    ensures
        split_key(k) == Some((k.take(i), k.skip(i + 1))),
{
    let c = choose|c: int| is_first_colon(k, c);
    assert(is_first_colon(k, c));
    if c < i {
        assert(k[c] != ':');
    } else if c > i {
        assert(k[i] != ':');
    }
}

/// A target's key gives back its kind and id when the kind holds no colon.
pub proof fn lemma_split_key_of_key(kind: Seq<char>, id: Seq<char>)
    requires
        forall|i: int| 0 <= i < kind.len() ==> kind[i] != ':',
    ensures
        split_key(key_seq(kind, id)) == Some((kind, id)),
{
    let k = key_seq(kind, id);
    let n = kind.len() as int;
    assert(k[n] == ':');
    assert forall|j: int| 0 <= j < n implies k[j] != ':' by {
        assert(k[j] == kind[j]);
    }
    assert(is_first_colon(k, n));
    lemma_first_colon_unique(k, n);
    assert(k.take(n) =~= kind);
    assert(k.skip(n + 1) =~= id);
}

/// Cuts a key at its first colon into the target it names.
pub fn split_target_key(key: &str) -> (r: Option<Target>)
    ensures
        match split_key(key@) {
            Some((kind, id)) => r is Some && r->0.kind@ == kind && r->0.id@ == id,
            None => r is None,
        },
{
    let v = chars_of(key);
    let mut i: usize = 0;
    while i < v.len() && v[i] != ':'
        invariant
            i <= v@.len(),
            v@ == key@,
            forall|j: int| 0 <= j < i ==> v@[j] != ':',
        decreases v.len() - i,
    {
        i += 1;
    }
    if i < v.len() {
        proof {
            lemma_first_colon_unique(key@, i as int);
        }
        let kind = string_of_range(&v, 0, i);
        let id = string_of_range(&v, i + 1, v.len());
        assert(v@.subrange(0, i as int) == key@.take(i as int));
        assert(v@.subrange(i + 1, v@.len() as int) == key@.skip(i + 1));
        Some(Target { kind, id })
    } else {
        proof {
            if exists|c: int| is_first_colon(key@, c) {
                let c = choose|c: int| is_first_colon(key@, c);
                assert(v@[c] != ':');
            }
        }
        None
    }
}

/// Whether some touch in force names the target `(kind, id)`.
pub open spec fn touched(log: Map<Seq<char>, u64>, kind: Seq<char>, id: Seq<char>) -> bool {
    exists|k: Seq<char>| log.dom().contains(k) && split_key(k) == Some((kind, id))
}

/// Drops the touches older than the grace period and gives the targets of
/// those that remain (each once, in no particular order).
pub fn recently_touched_targets(log: &mut TouchLog, now_ms: u64) -> (ts: Vec<Target>)
    ensures
        final(log)@ == prune_touches(old(log)@, now_ms),
        forall|i: int| 0 <= i < ts@.len() ==> touched(final(log)@, #[trigger] ts@[i].kind@, ts@[i].id@),
        forall|kind: Seq<char>, id: Seq<char>| touched(final(log)@, kind, id)
            ==> exists|i: int| 0 <= i < ts@.len() && ts@[i].kind@ == kind && ts@[i].id@ == id,
        forall|i: int, j: int| 0 <= i < ts@.len() && 0 <= j < ts@.len() && i != j
            ==> (#[trigger] ts@[i].kind@, ts@[i].id@) != (#[trigger] ts@[j].kind@, ts@[j].id@),
{
    let ghost start = log@;
    let keys = log.keys();
    for i in 0..keys.len()
        invariant
            forall|a: int| 0 <= a < keys@.len() ==> start.dom().contains(#[trigger] keys@[a]@),
            forall|k: Seq<char>| #[trigger] start.dom().contains(k)
                ==> exists|a: int| 0 <= a < keys@.len() && keys@[a]@ == k,
            forall|a: int, b: int| 0 <= a < keys@.len() && 0 <= b < keys@.len() && a != b
                ==> #[trigger] keys@[a]@ != #[trigger] keys@[b]@,
            forall|k: Seq<char>| #[trigger] log@.dom().contains(k) == (start.dom().contains(k)
                && ((exists|a: int| 0 <= a < i && keys@[a]@ == k) ==> fresh_touch(start[k], now_ms))),
            forall|k: Seq<char>| #[trigger] log@.dom().contains(k) ==> log@[k] == start[k],
    {
        let key = &keys[i];
        let at: u64 = match log.get(key.as_str()) {
            Some(t) => *t,
            None => 0,
        };
        if now_ms.saturating_sub(at) >= USER_GRACE_MS {
            log.remove(key.as_str());
        }
        proof {
            assert forall|k: Seq<char>| #[trigger] log@.dom().contains(k) == (start.dom().contains(k)
                && ((exists|a: int| 0 <= a < i + 1 && keys@[a]@ == k) ==> fresh_touch(start[k], now_ms))) by {
                if k != keys@[i as int]@ {
                    if exists|a: int| 0 <= a < i + 1 && keys@[a]@ == k {
                        let a = choose|a: int| 0 <= a < i + 1 && keys@[a]@ == k;
                        assert(a != i);
                    }
                }
            }
        }
    }
    proof {
        assert forall|k: Seq<char>| #[trigger] log@.dom().contains(k)
            == prune_touches(start, now_ms).dom().contains(k) by {
            if start.dom().contains(k) {
                let a = choose|a: int| 0 <= a < keys@.len() && keys@[a]@ == k;
            }
        }
        assert(log@ =~= prune_touches(start, now_ms));
    }
    let live = log.keys();
    let mut ts: Vec<Target> = Vec::new();
    let mut src_keys: Ghost<Seq<Seq<char>>> = Ghost(Seq::empty());
    let mut i: usize = 0;
    while i < live.len()
        invariant
            i <= live@.len(),
            forall|a: int| 0 <= a < live@.len() ==> log@.dom().contains(#[trigger] live@[a]@),
            forall|k: Seq<char>| #[trigger] log@.dom().contains(k)
                ==> exists|a: int| 0 <= a < live@.len() && live@[a]@ == k,
            forall|a: int, b: int| 0 <= a < live@.len() && 0 <= b < live@.len() && a != b
                ==> #[trigger] live@[a]@ != #[trigger] live@[b]@,
            ts@.len() == src_keys@.len(),
            forall|j: int| 0 <= j < ts@.len() ==> log@.dom().contains(#[trigger] src_keys@[j])
                && split_key(src_keys@[j]) == Some((ts@[j].kind@, ts@[j].id@)),
            forall|j: int| 0 <= j < ts@.len() ==> exists|a: int| 0 <= a < i && live@[a]@ == #[trigger] src_keys@[j],
            forall|a: int| 0 <= a < i ==> split_key(#[trigger] live@[a]@) is Some
                ==> exists|j: int| 0 <= j < ts@.len() && src_keys@[j] == live@[a]@,
            forall|j1: int, j2: int| 0 <= j1 < ts@.len() && 0 <= j2 < ts@.len() && j1 != j2
                ==> #[trigger] src_keys@[j1] != #[trigger] src_keys@[j2],
        decreases live.len() - i,
    {
        let ghost before = src_keys@;
        match split_target_key(live[i].as_str()) {
            Some(t) => {
                proof {
                    assert forall|j: int| 0 <= j < ts@.len() implies src_keys@[j] != live@[i as int]@ by {
                        let a = choose|a: int| 0 <= a < i && live@[a]@ == src_keys@[j];
                        assert(live@[a]@ != live@[i as int]@);
                    }
                    src_keys@ = src_keys@.push(live@[i as int]@);
                }
                ts.push(t);
                proof {
                    assert(src_keys@[ts@.len() - 1] == live@[i as int]@);
                    assert forall|j: int| 0 <= j < ts@.len() implies exists|a: int| 0 <= a < i + 1
                        && live@[a]@ == #[trigger] src_keys@[j] by {
                        if j < ts@.len() - 1 {
                            assert(src_keys@[j] == before[j]);
                            let a = choose|a: int| 0 <= a < i && live@[a]@ == before[j];
                        } else {
                            assert(live@[i as int]@ == src_keys@[j]);
                        }
                    }
                    assert forall|a: int| 0 <= a < i + 1 && split_key(#[trigger] live@[a]@) is Some
                        implies exists|j: int| 0 <= j < ts@.len() && src_keys@[j] == live@[a]@ by {
                        if a < i {
                            let j = choose|j: int| 0 <= j < before.len() && before[j] == live@[a]@;
                            assert(src_keys@[j] == before[j]);
                        } else {
                            assert(src_keys@[ts@.len() - 1] == live@[a]@);
                        }
                    }
                }
            },
            None => {
                proof {
                    assert forall|j: int| 0 <= j < ts@.len() implies exists|a: int| 0 <= a < i + 1
                        && live@[a]@ == #[trigger] src_keys@[j] by {
                        let a = choose|a: int| 0 <= a < i && live@[a]@ == src_keys@[j];
                    }
                }
            },
        }
        i += 1;
    }
    proof {
        assert forall|i: int| 0 <= i < ts@.len() implies touched(log@, #[trigger] ts@[i].kind@, ts@[i].id@) by {
            assert(log@.dom().contains(src_keys@[i]));
        }
        assert forall|kind: Seq<char>, id: Seq<char>| touched(log@, kind, id)
            implies exists|i: int| 0 <= i < ts@.len() && ts@[i].kind@ == kind && ts@[i].id@ == id by {
            let k = choose|k: Seq<char>| log@.dom().contains(k) && split_key(k) == Some((kind, id));
            let a = choose|a: int| 0 <= a < live@.len() && live@[a]@ == k;
            let j = choose|j: int| 0 <= j < ts@.len() && src_keys@[j] == live@[a]@;
            assert(ts@[j].kind@ == kind && ts@[j].id@ == id);
        }
        assert forall|i: int, j: int| 0 <= i < ts@.len() && 0 <= j < ts@.len() && i != j
            implies (#[trigger] ts@[i].kind@, ts@[i].id@) != (#[trigger] ts@[j].kind@, ts@[j].id@) by {
            assert(src_keys@[i] != src_keys@[j]);
            if (ts@[i].kind@, ts@[i].id@) == (ts@[j].kind@, ts@[j].id@) {
                lemma_split_key_injective(src_keys@[i], src_keys@[j]);
            }
        }
    }
    ts
}

proof fn lemma_split_key_injective(a: Seq<char>, b: Seq<char>)
    requires
        split_key(a) is Some,
        split_key(a) == split_key(b),
    ensures
        a == b,
{
    let i = choose|i: int| is_first_colon(a, i);
    let j = choose|j: int| is_first_colon(b, j);
    assert(is_first_colon(a, i));
    assert(is_first_colon(b, j));
    let (ka, ia) = split_key(a)->0;
    assert(a =~= a.take(i) + seq![':'] + a.skip(i + 1));
    assert(b =~= b.take(j) + seq![':'] + b.skip(j + 1));
}


/// Whether the light `x` is protected from a poll: some touch in force
/// names a target that, in the snapshot before the poll, stands for `x`.
pub open spec fn protected(
    lights: Seq<Light>,
    groups: Seq<Group>,
    log: Map<Seq<char>, u64>,
    x: Seq<char>,
) -> bool {
    exists|kind: Seq<char>, id: Seq<char>|
        touched(log, kind, id) && #[trigger] member_ids_spec(lights, groups, kind, id).contains(x)
}

/// What a poll puts in place of a light it reports: the light as the
/// snapshot had it where the user touched it lately, else the fresh report.
pub open spec fn polled_light(
    lights: Seq<Light>,
    groups: Seq<Group>,
    log: Map<Seq<char>, u64>,
    fresh: Light,
) -> Light {
    if protected(lights, groups, log, fresh.id@) {
        match first_light(lights, fresh.id@) {
            Some(j) => lights[j],
            None => fresh,
        }
    } else {
        fresh
    }
}

/// Appends copies of `src` to `dst`.
fn extend_strings(dst: &mut Vec<String>, src: &Vec<String>)
    ensures
        final(dst)@ == old(dst)@ + src@,
{
    let ghost start = dst@;
    for i in 0..src.len()
        invariant
            dst@ == start + src@.take(i as int),
    {
        dst.push(src[i].clone());
        assert(start + src@.take(i + 1) == (start + src@.take(i as int)).push(src@[i as int]));
    }
    assert(src@.take(src@.len() as int) == src@);
}

/// Takes in a poll: the lights and groups it reports replace the snapshot's,
/// except that a light the user touched within the grace period keeps the
/// state the snapshot had for it (so that a poll does not undo a change
/// that the daemon has not carried out yet). Stale touches are dropped.
pub fn replace_from_poll(
    snapshot: &mut Snapshot,
    touched_log: &mut TouchLog,
    lights: Vec<Light>,
    groups: Vec<Group>,
    now_ms: u64,
)
    ensures
        final(touched_log)@ == prune_touches(old(touched_log)@, now_ms),
        final(snapshot).lights@.len() == lights@.len(),
        forall|i: int| 0 <= i < lights@.len() ==> #[trigger] final(snapshot).lights@[i] == polled_light(
            old(snapshot).lights@,
            old(snapshot).groups@,
            final(touched_log)@,
            lights@[i],
        ),
        final(snapshot).groups@ == groups@,
        final(snapshot).fetched_at == Some(now_ms),
{
    let targets = recently_touched_targets(touched_log, now_ms);
    let ghost log = touched_log@;
    let ghost ls = snapshot.lights@;
    let ghost gs = snapshot.groups@;
    let mut guarded: Vec<String> = Vec::new();
    for i in 0..targets.len()
        invariant
            snapshot.lights@ == ls,
            snapshot.groups@ == gs,
            forall|x: Seq<char>| #[trigger] texts(guarded@).contains(x) <==> exists|j: int|
                0 <= j < i && #[trigger] member_ids_spec(ls, gs, targets@[j].kind@, targets@[j].id@).contains(x),
    {
        let ids = snapshot.member_ids(&targets[i]);
        let ghost before = guarded@;
        extend_strings(&mut guarded, &ids);
        proof {
            assert(texts(guarded@) =~= texts(before) + texts(ids@));
            assert forall|x: Seq<char>| #[trigger] texts(guarded@).contains(x) <==> exists|j: int|
                0 <= j < i + 1 && #[trigger] member_ids_spec(ls, gs, targets@[j].kind@, targets@[j].id@).contains(x) by {
                if texts(guarded@).contains(x) {
                    let p = choose|p: int| 0 <= p < texts(guarded@).len() && texts(guarded@)[p] == x;
                    if p < texts(before).len() {
                        assert(texts(before)[p] == x);
                        assert(texts(before).contains(x));
                    } else {
                        assert(texts(ids@)[p - texts(before).len()] == x);
                        assert(member_ids_spec(ls, gs, targets@[i as int].kind@, targets@[i as int].id@).contains(x));
                    }
                }
                if exists|j: int| 0 <= j < i + 1 && #[trigger] member_ids_spec(ls, gs, targets@[j].kind@, targets@[j].id@).contains(x) {
                    let j = choose|j: int| 0 <= j < i + 1 && #[trigger] member_ids_spec(ls, gs, targets@[j].kind@, targets@[j].id@).contains(x);
                    if j < i {
                        assert(texts(before).contains(x));
                        let p = choose|p: int| 0 <= p < texts(before).len() && texts(before)[p] == x;
                        assert(texts(guarded@)[p] == x);
                    } else {
                        let p = choose|p: int| 0 <= p < texts(ids@).len() && texts(ids@)[p] == x;
                        assert(texts(guarded@)[texts(before).len() + p] == x);
                    }
                }
            }
        }
    }
    proof {
        assert forall|x: Seq<char>| #[trigger] texts(guarded@).contains(x) <==> protected(ls, gs, log, x) by {
            if texts(guarded@).contains(x) {
                let j = choose|j: int| 0 <= j < targets@.len()
                    && #[trigger] member_ids_spec(ls, gs, targets@[j].kind@, targets@[j].id@).contains(x);
                assert(touched(log, targets@[j].kind@, targets@[j].id@));
            }
            if protected(ls, gs, log, x) {
                let (kind, id) = choose|kind: Seq<char>, id: Seq<char>|
                    touched(log, kind, id) && #[trigger] member_ids_spec(ls, gs, kind, id).contains(x);
                let j = choose|j: int| 0 <= j < targets@.len() && targets@[j].kind@ == kind && targets@[j].id@ == id;
                assert(member_ids_spec(ls, gs, targets@[j].kind@, targets@[j].id@).contains(x));
            }
        }
    }
    let mut merged: Vec<Light> = Vec::new();
    for i in 0..lights.len()
        invariant
            snapshot.lights@ == ls,
            forall|x: Seq<char>| #[trigger] texts(guarded@).contains(x) <==> protected(ls, gs, log, x),
            merged@.len() == i,
            forall|j: int| 0 <= j < i ==> #[trigger] merged@[j] == polled_light(ls, gs, log, lights@[j]),
    {
        let fresh = &lights[i];
        if contains_text(&guarded, fresh.id.as_str()) {
            match find_light(&snapshot.lights, fresh.id.as_str()) {
                Some(j) => merged.push(snapshot.lights[j].clone()),
                None => merged.push(fresh.clone()),
            }
        } else {
            merged.push(fresh.clone());
        }
    }
    snapshot.lights = merged;
    snapshot.groups = groups;
    snapshot.fetched_at = Some(now_ms);
}

/// `lights` with the first light whose id is `state`'s replaced by `state`.
pub open spec fn with_state(lights: Seq<Light>, state: Light) -> Seq<Light> {
    match first_light(lights, state.id@) {
        Some(j) => lights.update(j, state),
        None => lights,
    }
}

/// `lights` after taking in, in order, every state that `results` report.
pub open spec fn apply_results_spec(lights: Seq<Light>, results: Seq<TargetResult>) -> Seq<Light>
    decreases results.len(),
{
    if results.len() == 0 {
        lights
    } else {
        let prev = apply_results_spec(lights, results.drop_last());
        match results.last().state {
            Some(st) => with_state(prev, st),
            None => prev,
        }
    }
}

/// Takes in the states that an update's results report: each replaces the
/// snapshot's light of the same id, in the order of the results.
pub fn apply_results(snapshot: &mut Snapshot, results: &Vec<TargetResult>)
    ensures
        final(snapshot).lights@ == apply_results_spec(old(snapshot).lights@, results@),
        final(snapshot).groups@ == old(snapshot).groups@,
        final(snapshot).fetched_at == old(snapshot).fetched_at,
{
    let ghost start = snapshot.lights@;
    for i in 0..results.len()
        invariant
            snapshot.lights@ == apply_results_spec(start, results@.take(i as int)),
            snapshot.groups@ == old(snapshot).groups@,
            snapshot.fetched_at == old(snapshot).fetched_at,
    {
        assert(results@.take(i + 1).drop_last() == results@.take(i as int));
        assert(results@.take(i + 1).last() == results@[i as int]);
        match &results[i].state {
            Some(state) => {
                match find_light(&snapshot.lights, state.id.as_str()) {
                    Some(j) => {
                        snapshot.lights.set(j, state.clone());
                    },
                    None => {},
                }
            },
            None => {},
        }
    }
    assert(results@.take(results@.len() as int) == results@);
}

/// A light as a request leaves it: each field the request sets takes the
/// requested value (`on` is on where the request says 1).
pub open spec fn patched(l: Light, p: UpdateRequest) -> Light {
    Light {
        on: match p.on { Some(v) => v == 1, None => l.on },
        brightness: match p.brightness { Some(b) => b, None => l.brightness },
        kelvin: match p.kelvin { Some(k) => k, None => l.kelvin },
        hue: if p.hue is Some { p.hue } else { l.hue },
        saturation: if p.saturation is Some { p.saturation } else { l.saturation },
        ..l
    }
}

/// Shows a request's effect before the daemon confirms it: every light the
/// target stands for takes the requested values.
pub fn optimistic(snapshot: &mut Snapshot, target: &Target, patch: &UpdateRequest)
    ensures
        final(snapshot).lights@.len() == old(snapshot).lights@.len(),
        forall|i: int| 0 <= i < old(snapshot).lights@.len() ==> #[trigger] final(snapshot).lights@[i] == if member_ids_spec(
            old(snapshot).lights@,
            old(snapshot).groups@,
            target.kind@,
            target.id@,
        ).contains(old(snapshot).lights@[i].id@) {
            patched(old(snapshot).lights@[i], *patch)
        } else {
            old(snapshot).lights@[i]
        },
        final(snapshot).groups@ == old(snapshot).groups@,
        final(snapshot).fetched_at == old(snapshot).fetched_at,
{
    let ids = snapshot.member_ids(target);
    let ghost start = snapshot.lights@;
    let n = snapshot.lights.len();
    for i in 0..n
        invariant
            n == start.len(),
            snapshot.lights@.len() == start.len(),
            snapshot.groups@ == old(snapshot).groups@,
            snapshot.fetched_at == old(snapshot).fetched_at,
            forall|j: int| i <= j < start.len() ==> #[trigger] snapshot.lights@[j] == start[j],
            forall|j: int| 0 <= j < i ==> #[trigger] snapshot.lights@[j] == if texts(ids@).contains(start[j].id@) {
                patched(start[j], *patch)
            } else {
                start[j]
            },
    {
        if contains_text(&ids, snapshot.lights[i].id.as_str()) {
            let mut l = snapshot.lights[i].clone();
            match patch.on {
                Some(on) => { l.on = on == 1; },
                None => {},
            }
            match patch.brightness {
                Some(b) => { l.brightness = b; },
                None => {},
            }
            match patch.kelvin {
                Some(k) => { l.kelvin = k; },
                None => {},
            }
            if patch.hue.is_some() {
                l.hue = patch.hue;
            }
            if patch.saturation.is_some() {
                l.saturation = patch.saturation;
            }
            assert(l == patched(start[i as int], *patch));
            snapshot.lights.set(i, l);
        }
    }
}

/// Marks every light the target stands for as unreachable.
pub fn mark_unreachable(snapshot: &mut Snapshot, target: &Target)
    ensures
        final(snapshot).lights@.len() == old(snapshot).lights@.len(),
        forall|i: int| 0 <= i < old(snapshot).lights@.len() ==> #[trigger] final(snapshot).lights@[i] == if member_ids_spec(
            old(snapshot).lights@,
            old(snapshot).groups@,
            target.kind@,
            target.id@,
        ).contains(old(snapshot).lights@[i].id@) {
            Light { reachable: false, ..old(snapshot).lights@[i] }
        } else {
            old(snapshot).lights@[i]
        },
        final(snapshot).groups@ == old(snapshot).groups@,
        final(snapshot).fetched_at == old(snapshot).fetched_at,
{
    let ids = snapshot.member_ids(target);
    let ghost start = snapshot.lights@;
    let n = snapshot.lights.len();
    for i in 0..n
        invariant
            n == start.len(),
            snapshot.lights@.len() == start.len(),
            snapshot.groups@ == old(snapshot).groups@,
            snapshot.fetched_at == old(snapshot).fetched_at,
            forall|j: int| i <= j < start.len() ==> #[trigger] snapshot.lights@[j] == start[j],
            forall|j: int| 0 <= j < i ==> #[trigger] snapshot.lights@[j] == if texts(ids@).contains(start[j].id@) {
                Light { reachable: false, ..start[j] }
            } else {
                start[j]
            },
    {
        if contains_text(&ids, snapshot.lights[i].id.as_str()) {
            let mut l = snapshot.lights[i].clone();
            l.reachable = false;
            snapshot.lights.set(i, l);
        }
    }
}

/// Records what is known of a light's battery.
pub fn set_battery(cache: &mut BatteryCache, id: &str, battery: Option<Battery>)
    ensures
        final(cache)@ == old(cache)@.insert(id@, battery),
{
    cache.insert(id.to_owned(), battery);
}

/// What is known of a light's battery: `None` where nothing is known yet,
/// `Some(None)` where the light has none.
pub fn battery(cache: &BatteryCache, id: &str) -> (r: Option<Option<Battery>>)
    ensures
        r == if cache@.dom().contains(id@) { Some(cache@[id@]) } else { None },
{
    match cache.get(id) {
        Some(b) => Some(*b),
        None => None,
    }
}


/// A touch protects its target for one and a half seconds: pruning keeps
/// exactly the touches less than 1500 ms old (or dated later than now),
/// with their times.
pub proof fn lemma_touch_grace(log: Map<Seq<char>, u64>, now: u64, k: Seq<char>)
    ensures
        prune_touches(log, now).dom().contains(k)
            <==> log.dom().contains(k) && (now < log[k] || now - log[k] < 1500),
        prune_touches(log, now).dom().contains(k) ==> prune_touches(log, now)[k] == log[k],
{
}

/// The lights a target stands for: a light alone, every light for "all",
/// the members of the group for a group, none for any other kind; "all"
/// always exists and no other kind does.
pub proof fn lemma_target_members(lights: Seq<Light>, groups: Seq<Group>, kind: Seq<char>, id: Seq<char>)
    ensures
        member_ids_spec(lights, groups, "light"@, id) == seq![id],
        member_ids_spec(lights, groups, "all"@, id) == lights.map_values(|l: Light| l.id@),
        member_ids_spec(lights, groups, "group"@, id) == group_members(groups, id),
        target_exists_spec(lights, groups, "all"@, id),
        kind != "light"@ && kind != "group"@ && kind != "all"@ ==> member_ids_spec(lights, groups, kind, id)
            == Seq::<Seq<char>>::empty() && !target_exists_spec(lights, groups, kind, id),
        target_exists_spec(lights, groups, "light"@, id) <==> exists|i: int| 0 <= i < lights.len() && lights[i].id@ == id,
        target_exists_spec(lights, groups, "group"@, id) <==> exists|i: int| 0 <= i < groups.len() && groups[i].name@ == id,
{
    lemma_kind_names_differ();
}

/// A poll takes each light as reported, except a light the user touched
/// lately, which keeps the state the snapshot had for it (the first light
/// there with its id); a light the snapshot did not have is taken as
/// reported.
pub proof fn lemma_poll_keeps_touched(lights: Seq<Light>, groups: Seq<Group>, log: Map<Seq<char>, u64>, fresh: Light)
    ensures
        !protected(lights, groups, log, fresh.id@) ==> polled_light(lights, groups, log, fresh) == fresh,
        (forall|i: int| 0 <= i < lights.len() ==> lights[i].id@ != fresh.id@)
            ==> polled_light(lights, groups, log, fresh) == fresh,
        protected(lights, groups, log, fresh.id@) ==> forall|i: int| 0 <= i < lights.len() && lights[i].id@ == fresh.id@
            && (forall|j: int| 0 <= j < i ==> lights[j].id@ != fresh.id@)
            ==> polled_light(lights, groups, log, fresh) == lights[i],
{
    assert forall|i: int| 0 <= i < lights.len() && lights[i].id@ == fresh.id@
        && (forall|j: int| 0 <= j < i ==> lights[j].id@ != fresh.id@) implies first_light(lights, fresh.id@) == Some(i) by {
        lemma_first_light(lights, fresh.id@, i);
    }
}

/// What showing a request does to a light: on for 1 and off for any other
/// value, the requested brightness, temperature, hue and saturation where
/// given, and nothing else changed.
pub proof fn lemma_patch_fields(l: Light, p: UpdateRequest)
    ensures
        p.on == Some(1u8) ==> patched(l, p).on,
        p.on is Some && p.on != Some(1u8) ==> !patched(l, p).on,
        p.on is None ==> patched(l, p).on == l.on,
        p.brightness is Some ==> patched(l, p).brightness == p.brightness->0,
        p.brightness is None ==> patched(l, p).brightness == l.brightness,
        p.kelvin is Some ==> patched(l, p).kelvin == p.kelvin->0,
        p.kelvin is None ==> patched(l, p).kelvin == l.kelvin,
        p.hue is Some ==> patched(l, p).hue == p.hue,
        p.hue is None ==> patched(l, p).hue == l.hue,
        p.saturation is Some ==> patched(l, p).saturation == p.saturation,
        p.saturation is None ==> patched(l, p).saturation == l.saturation,
        patched(l, p).id == l.id && patched(l, p).name == l.name && patched(l, p).alias == l.alias,
        patched(l, p).enabled == l.enabled && patched(l, p).reachable == l.reachable,
        patched(l, p).color_capable == l.color_capable && patched(l, p).product == l.product,
{
}

/// The name of an aggregate: the group's name for a group, "All lights"
/// for every light, and the display name of the light for a light.
pub proof fn lemma_aggregate_names(id: Seq<char>, members: Seq<Light>)
    ensures
        aggregate_name("group"@, id, members) == id,
        aggregate_name("all"@, id, members) == "All lights"@,
        members.len() > 0 ==> aggregate_name("light"@, id, members) == display_name_seq(members[0]),
{
    lemma_kind_names_differ();
}

/// Showing two requests one after the other gives the same light as
/// showing their merge: what a light shows ahead of the daemon agrees with
/// the single request the queue sends for both.
pub proof fn lemma_patch_merge(l: Light, first: UpdateRequest, second: UpdateRequest)
    ensures
        patched(patched(l, first), second) == patched(l, crate::client::merged(first, second)),
{
}

/// Showing a request that changes nothing leaves a light as it was, and
/// showing the same request twice is the same as showing it once.
pub proof fn lemma_patch_nothing_and_twice(l: Light, p: UpdateRequest)
    ensures
        patched(l, UpdateRequest::nothing()) == l,
        patched(patched(l, p), p) == patched(l, p),
{
}

/// A battery reading reads back what was last recorded for that light, and
/// recording one light's battery leaves the others as they were.
pub proof fn lemma_battery_read_after_write(
    cache: Map<Seq<char>, Option<Battery>>,
    id: Seq<char>,
    other: Seq<char>,
    b: Option<Battery>,
)
    requires
        other != id,
    ensures
        cache.insert(id, b).dom().contains(id) && cache.insert(id, b)[id] == b,
        cache.insert(id, b).dom().contains(other) == cache.dom().contains(other),
        cache.dom().contains(other) ==> cache.insert(id, b)[other] == cache[other],
{
}

/// Dropping stale touches twice at the same time drops nothing more.
pub proof fn lemma_prune_idempotent(log: Map<Seq<char>, u64>, now: u64)
    ensures
        prune_touches(prune_touches(log, now), now) == prune_touches(log, now),
{
    assert(prune_touches(prune_touches(log, now), now) =~= prune_touches(log, now));
}

} // verus!
