//! The mapping between binding sets and the records of a persistence file.
//!
//! A file holds one member for each shader, named after it: an object with
//! the places of the time and of the camera, and the groups as a list of
//! lists of bindings, each with its name and its value.

use crate::binding::{BindingView, UniformBinding};
use crate::group::{GroupView, UniformGroup, MAX_BINDINGS};
use crate::json::{Json, JsonView, Member, Number};
use crate::persistence::{
    array, field_str, get_str, lemma_value_round_trip, member_views, object, persisted,
    push_member, savable, value_json, value_of_json,
};
use crate::uniform_types::{BuiltinValue, UniformValue};
use crate::uniforms::{Uniforms, UniformsView};
use vstd::prelude::*;

verus! {

/// The record of a binding: its name and the record of its value.
pub open spec fn binding_json(b: BindingView) -> JsonView {
    JsonView::Object(seq![("name"@, JsonView::String(b.name)), ("value"@, value_json(b.value))])
}

/// The binding that a record holds, with a new buffer for its value.
pub open spec fn binding_of_json(j: JsonView) -> Option<BindingView> {
    match (field_str(j, "name"@), j.get("value"@)) {
        (Some(name), Some(value)) => match value_of_json(value) {
            Some(v) => Some(BindingView { name, ..BindingView::new(v) }),
            None => None,
        },
        _ => None,
    }
}

/// The record of a group: the records of its bindings, in order.
pub open spec fn group_json(g: GroupView) -> JsonView {
    JsonView::Array(Seq::new(g.bindings.len(), |i: int| binding_json(g.bindings[i])))
}

/// The group that a record holds, with the device's record up to date; none
/// if a binding cannot be read, or there are more bindings than 32-bit
/// indices.
pub open spec fn group_of_json(j: JsonView) -> Option<GroupView> {
    match j {
        JsonView::Array(items) => if items.len() <= MAX_BINDINGS && forall|i: int|
            0 <= i < items.len() ==> (#[trigger] binding_of_json(items[i])) is Some {
            Some(
                GroupView {
                    bindings: Seq::new(items.len(), |i: int| binding_of_json(items[i])->Some_0),
                    bind_group: Seq::empty(),
                }.refreshed(),
            )
        } else {
            None
        },
        _ => None,
    }
}

/// The groups that a list of records holds.
pub open spec fn groups_of_json(items: Seq<JsonView>) -> Option<Seq<GroupView>> {
    if forall|i: int| 0 <= i < items.len() ==> (#[trigger] group_of_json(items[i])) is Some {
        Some(Seq::new(items.len(), |i: int| group_of_json(items[i])->Some_0))
    } else {
        None
    }
}

/// The record of a place: the index of the group, then the index of the
/// binding.
pub open spec fn location_json(location: (usize, usize)) -> JsonView {
    JsonView::Array(
        seq![
            JsonView::Number(Number::spec_from_usize(location.0)),
            JsonView::Number(Number::spec_from_usize(location.1)),
        ],
    )
}

/// The count that a record holds: its unsigned reading, if that fits.
pub open spec fn index_of_json(j: JsonView) -> Option<usize> {
    match j {
        JsonView::Number(n) => match n.unsigned {
            Some(v) => if v <= usize::MAX {
                Some(v as usize)
            } else {
                None
            },
            None => None,
        },
        _ => None,
    }
}

/// The place that a record holds: the first two items of a list, each a
/// count.
pub open spec fn location_of_json(j: JsonView) -> Option<(usize, usize)> {
    match j {
        JsonView::Array(items) => if items.len() >= 2 {
            match (index_of_json(items[0]), index_of_json(items[1])) {
                (Some(g), Some(b)) => Some((g, b)),
                _ => None,
            }
        } else {
            None
        },
        _ => None,
    }
}

/// Whether a value is the built-in that `camera` selects: a camera if it is
/// set, the time if not.
pub open spec fn is_builtin(v: UniformValue, camera: bool) -> bool {
    if camera {
        v matches UniformValue::BuiltIn(BuiltinValue::Camera { .. })
    } else {
        v == UniformValue::BuiltIn(BuiltinValue::Time)
    }
}

/// How many of the bindings hold the built-in that `camera` selects.
pub open spec fn count_bindings(bindings: Seq<BindingView>, camera: bool) -> nat
    decreases bindings.len(),
{
    if bindings.len() == 0 {
        0
    } else {
        count_bindings(bindings.drop_last(), camera) + if is_builtin(
            bindings.last().value,
            camera,
        ) {
            1nat
        } else {
            0nat
        }
    }
}

/// How many bindings of the groups hold the built-in that `camera` selects.
pub open spec fn count_groups(groups: Seq<GroupView>, camera: bool) -> nat
    decreases groups.len(),
{
    if groups.len() == 0 {
        0
    } else {
        count_groups(groups.drop_last(), camera) + count_bindings(groups.last().bindings, camera)
    }
}

/// The record of a set: the places of the time and of the camera, and the
/// records of the groups, in order.
pub open spec fn uniforms_json(u: UniformsView) -> JsonView {
    JsonView::Object(
        seq![
            ("time_uniform_location"@, location_json(u.time_uniform_location)),
            ("camera_uniform_location"@, location_json(u.camera_uniform_location)),
            (
                "groups"@,
                JsonView::Array(Seq::new(u.groups.len(), |i: int| group_json(u.groups[i]))),
            ),
        ],
    )
}

/// The set that a record holds: none unless both places and every binding
/// can be read, and the groups hold exactly one time and exactly one camera.
pub open spec fn uniforms_of_json(j: JsonView) -> Option<UniformsView> {
    match (
        j.get("time_uniform_location"@),
        j.get("camera_uniform_location"@),
        j.get("groups"@),
    ) {
        (Some(time), Some(camera), Some(JsonView::Array(items))) => match (
            location_of_json(time),
            location_of_json(camera),
            groups_of_json(items),
        ) {
            (Some(t), Some(c), Some(groups)) => if count_groups(groups, false) == 1
                && count_groups(groups, true) == 1 {
                Some(
                    UniformsView {
                        groups,
                        time_uniform_location: t,
                        camera_uniform_location: c,
                    },
                )
            } else {
                None
            },
            _ => None,
        },
        _ => None,
    }
}

/// The set that a file holds for a shader: the set that the member named
/// after the shader holds.
pub open spec fn load_of_json(config: JsonView, shader_name: Seq<char>) -> Option<UniformsView> {
    match config.get(shader_name) {
        Some(conf) => uniforms_of_json(conf),
        None => None,
    }
}

/// The record of a place.
pub fn location_to_json(location: (usize, usize)) -> (r: Json)
    ensures
        r@ == location_json(location),
{
    let mut items: Vec<Json> = Vec::new();
    items.push(Json::from_usize(location.0));
    items.push(Json::from_usize(location.1));
    let r = array(items);
    assert(r@->Array_0 =~= location_json(location)->Array_0);
    r
}

/// The count that a record holds.
pub fn index_from_json(j: &Json) -> (r: Option<usize>)
    ensures
        r == index_of_json(j@),
{
    match j.as_u64() {
        Some(v) => if v <= usize::MAX as u64 {
            Some(v as usize)
        } else {
            None
        },
        None => None,
    }
}

/// The place that a record holds.
pub fn location_from_json(j: &Json) -> (r: Option<(usize, usize)>)
    ensures
        r == location_of_json(j@),
{
    match j.as_array() {
        Some(items) => {
            if items.len() < 2 {
                return None;
            }
            match (index_from_json(&items[0]), index_from_json(&items[1])) {
                (Some(g), Some(b)) => Some((g, b)),
                _ => None,
            }
        },
        None => None,
    }
}

/// Adding a binding adds one to the count if it holds the built-in counted.
pub proof fn lemma_count_bindings_push(bindings: Seq<BindingView>, b: BindingView, camera: bool)
    ensures
        count_bindings(bindings.push(b), camera) == count_bindings(bindings, camera) + if is_builtin(
            b.value,
            camera,
        ) {
            1nat
        } else {
            0nat
        },
{
    assert(bindings.push(b).drop_last() =~= bindings);
}

/// Adding a group adds the count of its bindings.
pub proof fn lemma_count_groups_push(groups: Seq<GroupView>, g: GroupView, camera: bool)
    ensures
        count_groups(groups.push(g), camera) == count_groups(groups, camera) + count_bindings(
            g.bindings,
            camera,
        ),
{
    assert(groups.push(g).drop_last() =~= groups);
}

/// A count that stops at two: enough to tell none, one and several apart.
pub open spec fn capped(n: nat) -> nat {
    if n >= 2 {
        2
    } else {
        n
    }
}

impl UniformBinding {
    /// The record of the binding.
    pub fn to_json(&self) -> (r: Json)
        ensures
            r@ == binding_json(self@),
    {
        let mut members: Vec<Member> = Vec::new();
        push_member(&mut members, "name", Json::text(self.name.as_str()));
        push_member(&mut members, "value", self.value.to_json());
        assert(member_views(members@) =~= binding_json(self@)->Object_0);
        object(members)
    }

    /// The binding that a record holds, with a new buffer for its value.
    pub fn from_json(j: &Json) -> (r: Option<UniformBinding>)
        ensures
            match r {
                Some(b) => binding_of_json(j@) == Some(b@) && b.wf(),
                None => binding_of_json(j@) is None,
            },
    {
        let name = match get_str(j, "name") {
            Some(name) => name,
            None => {
                return None;
            },
        };
        let value = match j.get("value") {
            Some(value) => value,
            None => {
                return None;
            },
        };
        match UniformValue::from_json(value) {
            Some(v) => {
                let mut binding = UniformBinding::new(v);
                binding.set_name(name.to_owned());
                Some(binding)
            },
            None => None,
        }
    }
}

impl UniformGroup {
    /// The record of the group.
    pub fn to_json(&self) -> (r: Json)
        ensures
            r@ == group_json(self@),
    {
        let mut items: Vec<Json> = Vec::new();
        let mut i: usize = 0;
        while i < self.bindings.len()
            invariant
                i <= self.bindings@.len(),
                items@.len() == i,
                forall|k: int| 0 <= k < i ==> (#[trigger] items@[k])@ == binding_json(self@.bindings[k]),
            decreases self.bindings@.len() - i,
        {
            items.push(self.bindings[i].to_json());
            i = i + 1;
        }
        let r = array(items);
        assert(r@->Array_0 =~= group_json(self@)->Array_0);
        r
    }

    /// The group that a record holds, with the device's record up to date.
    pub fn from_json(j: &Json) -> (r: Option<UniformGroup>)
        ensures
            match r {
                Some(g) => group_of_json(j@) == Some(g@) && g.wf(),
                None => group_of_json(j@) is None,
            },
    {
        let items = match j.as_array() {
            Some(items) => items,
            None => {
                return None;
            },
        };
        if items.len() as u64 > MAX_BINDINGS {
            return None;
        }
        let ghost views = crate::json::views(items@);
        let mut group = UniformGroup::new();
        let mut i: usize = 0;
        while i < items.len()
            invariant
                i <= items@.len(),
                items@.len() <= MAX_BINDINGS,
                views == crate::json::views(items@),
                j@ == JsonView::Array(views),
                group.bindings@.len() == i,
                forall|k: int| 0 <= k < i ==> (#[trigger] group.bindings@[k]).wf(),
                forall|k: int|
                    0 <= k < i ==> #[trigger] binding_of_json(views[k]) == Some(
                        group.bindings@[k]@,
                    ),
            decreases items@.len() - i,
        {
            match UniformBinding::from_json(&items[i]) {
                Some(binding) => {
                    group.bindings.push(binding);
                },
                None => {
                    assert(binding_of_json(views[i as int]) is None);
                    return None;
                },
            }
            i = i + 1;
        }
        group.refresh_bind_group();
        proof {
            let expected = group_of_json(j@)->Some_0;
            assert(group@.bindings =~= expected.bindings);
            assert(group@.bind_group =~= expected.bind_group);
        }
        Some(group)
    }
}

impl Uniforms {
    /// The record of the set.
    pub fn to_json(&self) -> (r: Json)
        ensures
            r@ == uniforms_json(self@),
    {
        let mut items: Vec<Json> = Vec::new();
        let mut i: usize = 0;
        while i < self.groups.len()
            invariant
                i <= self.groups@.len(),
                items@.len() == i,
                forall|k: int| 0 <= k < i ==> (#[trigger] items@[k])@ == group_json(self@.groups[k]),
            decreases self.groups@.len() - i,
        {
            items.push(self.groups[i].to_json());
            i = i + 1;
        }
        let groups = array(items);
        assert(groups@->Array_0 =~= Seq::new(
            self@.groups.len(),
            |i: int| group_json(self@.groups[i]),
        ));
        let mut members: Vec<Member> = Vec::new();
        push_member(
            &mut members,
            "time_uniform_location",
            location_to_json(self.time_uniform_location),
        );
        push_member(
            &mut members,
            "camera_uniform_location",
            location_to_json(self.camera_uniform_location),
        );
        push_member(&mut members, "groups", groups);
        assert(member_views(members@) =~= uniforms_json(self@)->Object_0);
        object(members)
    }

    /// Puts the record of the set into the record of a file, under the name
    /// of the shader: in place of what the file held for that shader, or
    /// after what it holds for others. A file that holds no object counts as
    /// empty.
    pub fn save(&self, config: Json, shader_name: &str) -> (r: Json)
        ensures
            r@ == config@.with_member(shader_name@, uniforms_json(self@)),
    {
        config.insert(shader_name, self.to_json())
    }

    /// How many bindings of a group hold the built-in that `camera` selects,
    /// counted up to two.
    fn count_builtins(group: &UniformGroup, camera: bool) -> (n: u8)
        ensures
            n == capped(count_bindings(group@.bindings, camera)),
    {
        let mut n: u8 = 0;
        let mut i: usize = 0;
        assert(group@.bindings.take(0) =~= Seq::empty());
        while i < group.bindings.len()
            invariant
                i <= group.bindings@.len(),
                n == capped(count_bindings(group@.bindings.take(i as int), camera)),
            decreases group.bindings@.len() - i,
        {
            let hit = match group.bindings[i].value {
                UniformValue::BuiltIn(BuiltinValue::Time) => !camera,
                UniformValue::BuiltIn(BuiltinValue::Camera { .. }) => camera,
                _ => false,
            };
            proof {
                lemma_count_bindings_push(
                    group@.bindings.take(i as int),
                    group@.bindings[i as int],
                    camera,
                );
                assert(group@.bindings.take(i as int).push(group@.bindings[i as int])
                    =~= group@.bindings.take(i + 1));
            }
            if hit && n < 2 {
                n = n + 1;
            }
            i = i + 1;
        }
        assert(group@.bindings.take(i as int) =~= group@.bindings);
        n
    }

    /// The set that a record holds; none unless both places and every binding
    /// can be read and the groups hold exactly one time and exactly one
    /// camera.
    pub fn from_json(conf: &Json) -> (r: Option<Uniforms>)
        ensures
            match r {
                Some(u) => uniforms_of_json(conf@) == Some(u@) && u.wf(),
                None => uniforms_of_json(conf@) is None,
            },
    {
        let time = match conf.get("time_uniform_location") {
            Some(j) => j,
            None => {
                return None;
            },
        };
        let camera = match conf.get("camera_uniform_location") {
            Some(j) => j,
            None => {
                return None;
            },
        };
        let items = match conf.get("groups") {
            Some(j) => match j.as_array() {
                Some(items) => items,
                None => {
                    return None;
                },
            },
            None => {
                return None;
            },
        };
        let t = match location_from_json(time) {
            Some(t) => t,
            None => {
                return None;
            },
        };
        let c = match location_from_json(camera) {
            Some(c) => c,
            None => {
                return None;
            },
        };
        let ghost views = crate::json::views(items@);
        let mut groups: Vec<UniformGroup> = Vec::new();
        let mut time_count: u8 = 0;
        let mut camera_count: u8 = 0;
        let ghost mut done: Seq<GroupView> = Seq::empty();
        let mut i: usize = 0;
        while i < items.len()
            invariant
                i <= items@.len(),
                views == crate::json::views(items@),
                conf@.get("time_uniform_location"@) == Some(time@),
                conf@.get("camera_uniform_location"@) == Some(camera@),
                conf@.get("groups"@) == Some(JsonView::Array(views)),
                location_of_json(time@) == Some(t),
                location_of_json(camera@) == Some(c),
                groups@.len() == i,
                done == Seq::new(i as nat, |k: int| groups@[k]@),
                forall|k: int| 0 <= k < i ==> (#[trigger] groups@[k]).wf(),
                forall|k: int|
                    0 <= k < i ==> #[trigger] group_of_json(views[k]) == Some(groups@[k]@),
                time_count == capped(count_groups(done, false)),
                camera_count == capped(count_groups(done, true)),
            decreases items@.len() - i,
        {
            match UniformGroup::from_json(&items[i]) {
                Some(group) => {
                    let times = Self::count_builtins(&group, false);
                    let cameras = Self::count_builtins(&group, true);
                    proof {
                        lemma_count_groups_push(done, group@, false);
                        lemma_count_groups_push(done, group@, true);
                    }
                    time_count = if time_count + times >= 2 {
                        2
                    } else {
                        time_count + times
                    };
                    camera_count = if camera_count + cameras >= 2 {
                        2
                    } else {
                        camera_count + cameras
                    };
                    let ghost before = done;
                    proof {
                        done = done.push(group@);
                    }
                    groups.push(group);
                    assert(done =~= Seq::new((i + 1) as nat, |k: int| groups@[k]@));
                },
                None => {
                    assert(group_of_json(views[i as int]) is None);
                    return None;
                },
            }
            i = i + 1;
        }
        proof {
            assert(done =~= groups_of_json(views)->Some_0);
        }
        if time_count != 1 || camera_count != 1 {
            return None;
        }
        let r = Uniforms { groups, time_uniform_location: t, camera_uniform_location: c };
        assert(r@.groups =~= done);
        Some(r)
    }

    /// The set that the record of a file holds for a shader; none if the file
    /// holds nothing under that name, or what it holds is no set.
    pub fn load(config: &Json, shader_name: &str) -> (r: Option<Uniforms>)
        ensures
            match r {
                Some(u) => load_of_json(config@, shader_name@) == Some(u@) && u.wf(),
                None => load_of_json(config@, shader_name@) is None,
            },
    {
        match config.get(shader_name) {
            Some(conf) => Self::from_json(conf),
            None => None,
        }
    }

    /// The set that the record of a file holds for a shader, or the set that
    /// a session starts with if it holds none.
    pub fn load_uniforms(config: &Json, shader_name: &str) -> (r: Uniforms)
        ensures
            r@ == (match load_of_json(config@, shader_name@) {
                Some(u) => u,
                None => UniformsView::new(),
            }),
            r.wf(),
    {
        match Self::load(config, shader_name) {
            Some(inputs) => inputs,
            None => Uniforms::new(),
        }
    }
}

/// What is left of a binding once it has been saved and read back: its
/// name, what is left of its value, and a new buffer for that.
pub open spec fn restored_binding(b: BindingView) -> BindingView {
    BindingView { name: b.name, ..BindingView::new(persisted(b.value)) }
}

/// What is left of a group once it has been saved and read back.
pub open spec fn restored_group(g: GroupView) -> GroupView {
    GroupView {
        bindings: Seq::new(g.bindings.len(), |i: int| restored_binding(g.bindings[i])),
        bind_group: Seq::empty(),
    }.refreshed()
}

/// What is left of a set once it has been saved and read back: the same
/// places, and in every group the same names and values in the same order,
/// but for the matrices of transforms and cameras, each with a new buffer.
pub open spec fn restored(u: UniformsView) -> UniformsView {
    UniformsView {
        groups: Seq::new(u.groups.len(), |g: int| restored_group(u.groups[g])),
        ..u
    }
}

/// A set can be saved and read back: every value in it can be saved, no
/// group has more bindings than 32-bit indices, and it holds exactly one time
/// and exactly one camera.
pub open spec fn set_savable(u: UniformsView) -> bool {
    &&& forall|g: int, b: int| u.has(g, b) ==> savable(#[trigger] u.binding(g, b).value)
    &&& forall|g: int| 0 <= g < u.groups.len() ==> (#[trigger] u.groups[g]).bindings.len()
        <= MAX_BINDINGS
    &&& count_groups(u.groups, false) == 1
    &&& count_groups(u.groups, true) == 1
}

/// A binding whose value can be saved is read back from its record.
pub proof fn lemma_binding_round_trip(b: BindingView)
    requires
        savable(b.value),
    ensures
        binding_of_json(binding_json(b)) == Some(restored_binding(b)),
{
    reveal_with_fuel(crate::json::lookup_from, 3);
    reveal_strlit("name");
    reveal_strlit("value");
    assert("name"@.len() == 4);
    assert("value"@.len() == 5);
    lemma_value_round_trip(b.value);
}

/// A group whose values can be saved is read back from its record.
pub proof fn lemma_group_round_trip(g: GroupView)
    requires
        g.bindings.len() <= MAX_BINDINGS,
        forall|i: int| 0 <= i < g.bindings.len() ==> savable(#[trigger] g.bindings[i].value),
    ensures
        group_of_json(group_json(g)) == Some(restored_group(g)),
{
    let items = group_json(g)->Array_0;
    assert forall|i: int| 0 <= i < items.len() implies #[trigger] binding_of_json(items[i])
        == Some(restored_binding(g.bindings[i])) by {
        lemma_binding_round_trip(g.bindings[i]);
    }
    assert(group_of_json(group_json(g))->Some_0.bindings =~= restored_group(g).bindings);
}

/// Saving and reading back keeps the number of times and of cameras among
/// bindings.
pub proof fn lemma_count_bindings_restored(bindings: Seq<BindingView>, camera: bool)
    ensures
        count_bindings(Seq::new(bindings.len(), |i: int| restored_binding(bindings[i])), camera)
            == count_bindings(bindings, camera),
    decreases bindings.len(),
{
    let mapped = Seq::new(bindings.len(), |i: int| restored_binding(bindings[i]));
    if bindings.len() > 0 {
        let shorter = bindings.drop_last();
        lemma_count_bindings_restored(shorter, camera);
        assert(mapped.drop_last() =~= Seq::new(
            shorter.len(),
            |i: int| restored_binding(shorter[i]),
        ));
    }
}

/// Saving and reading back keeps the number of times and of cameras among
/// groups.
pub proof fn lemma_count_groups_restored(groups: Seq<GroupView>, camera: bool)
    ensures
        count_groups(Seq::new(groups.len(), |g: int| restored_group(groups[g])), camera)
            == count_groups(groups, camera),
    decreases groups.len(),
{
    let mapped = Seq::new(groups.len(), |g: int| restored_group(groups[g]));
    if groups.len() > 0 {
        let shorter = groups.drop_last();
        lemma_count_groups_restored(shorter, camera);
        assert(mapped.drop_last() =~= Seq::new(shorter.len(), |g: int| restored_group(shorter[g])));
        lemma_count_bindings_restored(groups.last().bindings, camera);
    }
}

/// A place is read back from its record.
pub proof fn lemma_location_round_trip(location: (usize, usize))
    ensures
        location_of_json(location_json(location)) == Some(location),
{
}

/// Reading inverts saving: a set that can be saved is read back from its
/// record with the same places and, in every group, the same names and values
/// in the same order, but for the matrices of transforms and cameras.
pub proof fn lemma_uniforms_round_trip(u: UniformsView)
    requires
        set_savable(u),
    ensures
        uniforms_of_json(uniforms_json(u)) == Some(restored(u)),
{
    reveal_with_fuel(crate::json::lookup_from, 4);
    reveal_strlit("time_uniform_location");
    reveal_strlit("camera_uniform_location");
    reveal_strlit("groups");
    assert("time_uniform_location"@.len() == 21);
    assert("camera_uniform_location"@.len() == 23);
    assert("groups"@.len() == 6);
    lemma_location_round_trip(u.time_uniform_location);
    lemma_location_round_trip(u.camera_uniform_location);
    let items = Seq::new(u.groups.len(), |i: int| group_json(u.groups[i]));
    assert forall|g: int| 0 <= g < items.len() implies #[trigger] group_of_json(items[g]) == Some(
        restored_group(u.groups[g]),
    ) by {
        assert forall|i: int| 0 <= i < u.groups[g].bindings.len() implies savable(
            #[trigger] u.groups[g].bindings[i].value,
        ) by {
            assert(u.has(g, i));
            assert(u.binding(g, i) == u.groups[g].bindings[i]);
        }
        lemma_group_round_trip(u.groups[g]);
    }
    assert(groups_of_json(items)->Some_0 =~= restored(u).groups);
    lemma_count_groups_restored(u.groups, false);
    lemma_count_groups_restored(u.groups, true);
}

/// A set that was saved for a shader is what the file holds for that shader,
/// whatever the file held before.
pub proof fn lemma_save_load(u: UniformsView, config: JsonView, shader_name: Seq<char>)
    requires
        set_savable(u),
    ensures
        load_of_json(config.with_member(shader_name, uniforms_json(u)), shader_name) == Some(
            restored(u),
        ),
{
    crate::json::lemma_get_with_member(config, shader_name, uniforms_json(u));
    lemma_uniforms_round_trip(u);
}

} // verus!
