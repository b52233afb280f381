//! Unix paths as byte strings: their components, and the routes that may lead
//! to a shared credential directory.

use vstd::prelude::*;

verus! {

/// The byte `/`.
pub const SLASH: u8 = 47;

/// The byte `.`.
pub const DOT: u8 = 46;

/// The byte `0`.
pub const ZERO: u8 = 48;

/// The byte `9`.
pub const NINE: u8 = 57;

/// The bytes of `proc`.
pub open spec fn proc_name() -> Seq<u8> {
    seq![112, 114, 111, 99]
}

/// The bytes of `fd`.
pub open spec fn fd_name() -> Seq<u8> {
    seq![102, 100]
}

/// The bytes between the slashes of `path`, empty ones included.
pub open spec fn segments(path: Seq<u8>) -> Seq<Seq<u8>>
    decreases path.len(),
{
    if path.len() == 0 {
        seq![Seq::empty()]
    } else {
        let before = segments(path.drop_last());
        if path.last() == SLASH {
            before.push(Seq::empty())
        } else {
            before.drop_last().push(before.last().push(path.last()))
        }
    }
}

/// Whether the segment at `position` names a component. Empty segments never
/// do, and `.` does only at the very start of a path.
pub open spec fn names_component(position: int, segment: Seq<u8>) -> bool {
    segment.len() > 0 && (segment != seq![DOT] || position == 0)
}

/// The segments that name components, in order.
pub open spec fn named(segs: Seq<Seq<u8>>) -> Seq<Seq<u8>>
    decreases segs.len(),
{
    if segs.len() == 0 {
        Seq::empty()
    } else {
        let before = named(segs.drop_last());
        if names_component(segs.len() - 1, segs.last()) {
            before.push(segs.last())
        } else {
            before
        }
    }
}

/// A path is absolute if it starts with a slash.
pub open spec fn absolute(path: Seq<u8>) -> bool {
    path.len() > 0 && path[0] == SLASH
}

/// The components of a path: the root, if it is absolute, and then its names.
pub open spec fn components_of(path: Seq<u8>) -> Seq<Seq<u8>> {
    if absolute(path) {
        seq![seq![SLASH]] + named(segments(path))
    } else {
        named(segments(path))
    }
}

/// Two paths are the same if their components are.
pub open spec fn same(left: Seq<u8>, right: Seq<u8>) -> bool {
    components_of(left) == components_of(right)
}

/// A non-empty run of ASCII digits.
pub open spec fn numeric(name: Seq<u8>) -> bool {
    name.len() > 0 && forall|i: int| 0 <= i < name.len() ==> ZERO <= #[trigger] name[i] <= NINE
}

/// The shape `<root>/proc/<pid>/fd/<descriptor>`, where both numbers are
/// written in digits. Of the first component nothing is asked.
pub open spec fn descriptor_route(path: Seq<u8>) -> bool {
    let parts = components_of(path);
    &&& parts.len() == 5
    &&& parts[1] == proc_name()
    &&& parts[3] == fd_name()
    &&& numeric(parts[2])
    &&& numeric(parts[4])
}

/// The views of a list of byte strings.
pub open spec fn views(names: Seq<Vec<u8>>) -> Seq<Seq<u8>> {
    names.map_values(|name: Vec<u8>| name@)
}

/// Whether two byte strings are equal.
pub fn bytes_equal(left: &[u8], right: &[u8]) -> (equal: bool)
    ensures
        equal == (left@ == right@),
{
    if left.len() != right.len() {
        return false;
    }
    let mut i: usize = 0;
    while i < left.len()
        invariant
            i <= left.len(),
            left.len() == right.len(),
            forall|j: int| 0 <= j < i ==> left@[j] == right@[j],
        decreases left.len() - i,
    {
        if left[i] != right[i] {
            return false;
        }
        i += 1;
    }
    assert(left@ =~= right@);
    true
}

/// Whether `path` starts at the root.
pub fn is_absolute(path: &[u8]) -> (result: bool)
    ensures
        result == absolute(path@),
{
    path.len() > 0 && path[0] == SLASH
}

/// Takes a finished segment into the list of names, if it names a component.
fn keep_segment(names: &mut Vec<Vec<u8>>, segment: Vec<u8>, first: bool, Ghost(done): Ghost<Seq<Seq<u8>>>)
    requires
        views(old(names)@) == named(done),
        first == (done.len() == 0),
    ensures
        views(final(names)@) == named(done.push(segment@)),
{
    let dot: Vec<u8> = vec![DOT];
    proof {
        assert(done.push(segment@).drop_last() =~= done);
        assert(dot@ =~= seq![DOT]);
    }
    if segment.len() > 0 && (first || !bytes_equal(segment.as_slice(), dot.as_slice())) {
        let ghost before = names@;
        names.push(segment);
        assert(views(names@) =~= views(before).push(segment@));
    }
}

/// The components of a path.
pub fn components(path: &[u8]) -> (parts: Vec<Vec<u8>>)
    ensures
        views(parts@) == components_of(path@),
{
    let mut names: Vec<Vec<u8>> = Vec::new();
    let mut current: Vec<u8> = Vec::new();
    let mut first: bool = true;
    let ghost mut done: Seq<Seq<u8>> = Seq::empty();
    let mut i: usize = 0;
    proof {
        assert(views(names@) =~= named(done));
        assert(path@.take(0) =~= Seq::empty());
        assert(segments(path@.take(0)) =~= done.push(current@));
    }
    while i < path.len()
        invariant
            i <= path.len(),
            first == (done.len() == 0),
            views(names@) == named(done),
            segments(path@.take(i as int)) == done.push(current@),
        decreases path.len() - i,
    {
        let byte: u8 = path[i];
        proof {
            assert(path@.take(i + 1).drop_last() =~= path@.take(i as int));
            assert(done.push(current@).drop_last() =~= done);
        }
        if byte == SLASH {
            let ghost segment = current@;
            keep_segment(&mut names, current, first, Ghost(done));
            current = Vec::new();
            first = false;
            proof {
                done = done.push(segment);
            }
            assert(segments(path@.take(i + 1)) =~= done.push(current@));
        } else {
            current.push(byte);
            assert(segments(path@.take(i + 1)) =~= done.push(current@));
        }
        i += 1;
    }
    keep_segment(&mut names, current, first, Ghost(done));
    proof {
        assert(path@.take(path.len() as int) =~= path@);
    }
    if is_absolute(path) {
        let root: Vec<u8> = vec![SLASH];
        let ghost rest = names@;
        names.insert(0, root);
        proof {
            assert(root@ =~= seq![SLASH]);
            assert(views(names@) =~= seq![seq![SLASH]] + views(rest));
        }
    }
    names
}

/// Whether two paths have the same components.
pub fn same_path(left: &[u8], right: &[u8]) -> (result: bool)
    ensures
        result == same(left@, right@),
{
    let a: Vec<Vec<u8>> = components(left);
    let b: Vec<Vec<u8>> = components(right);
    if a.len() != b.len() {
        assert(views(a@).len() != views(b@).len());
        return false;
    }
    let mut i: usize = 0;
    while i < a.len()
        invariant
            i <= a.len(),
            a.len() == b.len(),
            views(a@) == components_of(left@),
            views(b@) == components_of(right@),
            forall|j: int| 0 <= j < i ==> views(a@)[j] == views(b@)[j],
        decreases a.len() - i,
    {
        if !bytes_equal(a[i].as_slice(), b[i].as_slice()) {
            assert(views(a@)[i as int] != views(b@)[i as int]);
            return false;
        }
        i += 1;
    }
    assert(views(a@) =~= views(b@));
    true
}

/// Whether `name` is a non-empty run of ASCII digits.
pub fn is_numeric(name: &[u8]) -> (result: bool)
    ensures
        result == numeric(name@),
{
    if name.len() == 0 {
        return false;
    }
    let mut i: usize = 0;
    while i < name.len()
        invariant
            i <= name.len(),
            forall|j: int| 0 <= j < i ==> ZERO <= #[trigger] name@[j] <= NINE,
        decreases name.len() - i,
    {
        if name[i] < ZERO || name[i] > NINE {
            assert(!(ZERO <= name@[i as int] <= NINE));
            return false;
        }
        i += 1;
    }
    true
}

/// Whether a path has the shape of a numeric descriptor route under `/proc`.
pub fn is_descriptor_route(path: &[u8]) -> (result: bool)
    ensures
        result == descriptor_route(path@),
{
    let parts: Vec<Vec<u8>> = components(path);
    let procs: Vec<u8> = vec![112, 114, 111, 99];
    let fds: Vec<u8> = vec![102, 100];
    proof {
        assert(procs@ =~= proc_name());
        assert(fds@ =~= fd_name());
        assert(views(parts@).len() == parts@.len());
    }
    parts.len() == 5 && bytes_equal(parts[1].as_slice(), procs.as_slice()) && bytes_equal(
        parts[3].as_slice(),
        fds.as_slice(),
    ) && is_numeric(parts[2].as_slice()) && is_numeric(parts[4].as_slice())
}

/// A slash at the end of a path changes nothing.
pub proof fn trailing_slashes_do_not_matter(path: Seq<u8>)
    requires
        path.len() > 0,
    ensures
        same(path.push(SLASH), path),
{
    let longer = path.push(SLASH);
    assert(longer.drop_last() =~= path);
    assert(segments(longer).drop_last() =~= segments(path));
}

/// Neither does a dot behind it.
pub proof fn trailing_dots_do_not_matter(path: Seq<u8>)
    requires
        path.len() > 0,
    ensures
        same(path.push(SLASH).push(DOT), path),
{
    let slashed = path.push(SLASH);
    let longer = slashed.push(DOT);
    assert(slashed.drop_last() =~= path);
    assert(longer.drop_last() =~= slashed);
    assert(segments(path).len() > 0) by {
        segments_are_never_none(path);
    }
    assert(segments(slashed) == segments(path).push(Seq::empty()));
    assert(segments(slashed).drop_last() =~= segments(path));
    assert(segments(longer) == segments(path).push(Seq::empty().push(DOT)));
    assert(segments(longer).drop_last() =~= segments(path));
    assert(Seq::empty().push(DOT) =~= seq![DOT]);
}

proof fn segments_are_never_none(path: Seq<u8>)
    ensures
        segments(path).len() > 0,
    decreases path.len(),
{
    if path.len() > 0 {
        segments_are_never_none(path.drop_last());
    }
}

proof fn segments_append(path: Seq<u8>, name: Seq<u8>)
    requires
        !name.contains(SLASH),
    ensures
        segments(path.push(SLASH) + name) == segments(path).push(name),
    decreases name.len(),
{
    let whole = path.push(SLASH) + name;
    if name.len() == 0 {
        assert(whole =~= path.push(SLASH));
        assert(whole.drop_last() =~= path);
        assert(name =~= Seq::empty());
    } else {
        let shorter = name.drop_last();
        assert forall|b: u8| shorter.contains(b) implies name.contains(b) by {
            let i = choose|i: int| 0 <= i < shorter.len() && shorter[i] == b;
            assert(name[i] == b);
        }
        segments_append(path, shorter);
        assert(name.contains(name.last()));
        assert(whole.drop_last() =~= path.push(SLASH) + shorter);
        assert(segments(path).push(shorter).drop_last() =~= segments(path));
        assert(shorter.push(name.last()) =~= name);
    }
}

proof fn segments_single(name: Seq<u8>)
    requires
        !name.contains(SLASH),
    ensures
        segments(name) == seq![name],
    decreases name.len(),
{
    if name.len() == 0 {
        assert(name =~= Seq::empty());
    } else {
        let shorter = name.drop_last();
        assert forall|b: u8| shorter.contains(b) implies name.contains(b) by {
            let i = choose|i: int| 0 <= i < shorter.len() && shorter[i] == b;
            assert(name[i] == b);
        }
        segments_single(shorter);
        assert(name.contains(name.last()));
        assert(shorter.push(name.last()) =~= name);
        assert(segments(name) =~= seq![name]);
    }
}

/// A path without a slash is its own single component, or has none if it is empty.
pub proof fn single_names_are_components(name: Seq<u8>)
    requires
        !name.contains(47u8),
    ensures
        components_of(name) == (if name.len() == 0 {
            Seq::<Seq<u8>>::empty()
        } else {
            seq![name]
        }),
        !absolute(name),
{
    segments_single(name);
    if absolute(name) {
        assert(name.contains(name[0]));
    }
    assert(seq![name].drop_last() =~= Seq::<Seq<u8>>::empty());
    assert(named(seq![name].drop_last()) =~= Seq::<Seq<u8>>::empty());
    assert(components_of(name) =~= (if name.len() == 0 {
        Seq::<Seq<u8>>::empty()
    } else {
        seq![name]
    }));
}

/// A slash and a name behind a path add the name to its components. Where there is
/// no name, or only a dot, they add nothing. Before the first slash of an absolute
/// path stands its root.
pub proof fn further_names_are_further_components(path: Seq<u8>, name: Seq<u8>)
    requires
        !name.contains(47u8),
    ensures
        ({
            let before = if path.len() == 0 {
                seq![seq![47u8]]
            } else {
                components_of(path)
            };
            components_of(path.push(47u8) + name) == if name.len() == 0 || name == seq![46u8] {
                before
            } else {
                before.push(name)
            }
        }),
        absolute(path.push(47u8) + name) <==> path.len() == 0 || absolute(path),
{
    let whole = path.push(47u8) + name;
    segments_append(path, name);
    segments_are_never_none(path);
    assert(segments(path).push(name).drop_last() =~= segments(path));
    assert(whole[0] == (if path.len() == 0 {
        47u8
    } else {
        path[0]
    }));
    if path.len() == 0 {
        assert(path =~= Seq::<u8>::empty());
        let none: Seq<Seq<u8>> = seq![Seq::<u8>::empty()];
        assert(none.drop_last() =~= Seq::<Seq<u8>>::empty());
        assert(none.last() =~= Seq::<u8>::empty());
        assert(named(none.drop_last()) =~= Seq::<Seq<u8>>::empty());
        assert(named(none) =~= Seq::<Seq<u8>>::empty());
        assert(segments(path) =~= none);
        if name.len() == 0 || name == seq![46u8] {
            assert(components_of(whole) =~= seq![seq![47u8]]);
        } else {
            assert(components_of(whole) =~= seq![seq![47u8]].push(name));
        }
    } else if name.len() == 0 || name == seq![46u8] {
        assert(components_of(whole) =~= components_of(path));
    } else {
        assert(components_of(whole) =~= components_of(path).push(name));
    }
}

/// Two paths are the same exactly if they have equally many components and agree in
/// each of them.
pub proof fn same_paths_agree_in_every_component(left: Seq<u8>, right: Seq<u8>)
    ensures
        same(left, right) <==> components_of(left).len() == components_of(right).len() && forall|
            i: int,
        |
            0 <= i < components_of(left).len() ==> #[trigger] components_of(left)[i]
                == components_of(right)[i],
{
    if components_of(left).len() == components_of(right).len() && forall|i: int|
        0 <= i < components_of(left).len() ==> #[trigger] components_of(left)[i]
            == components_of(right)[i] {
        assert(components_of(left) =~= components_of(right));
    }
}

/// The absolute path through the given names.
pub open spec fn path_through(names: Seq<Seq<u8>>) -> Seq<u8>
    decreases names.len(),
{
    if names.len() == 0 {
        Seq::empty()
    } else {
        path_through(names.drop_last()).push(47u8) + names.last()
    }
}

/// Whether a name can stand in a path for itself: it holds no slash, and is neither
/// empty nor a dot.
pub open spec fn plain(name: Seq<u8>) -> bool {
    !name.contains(47u8) && name.len() > 0 && name != seq![46u8]
}

/// The components of the path through some names are the root and those names.
pub proof fn paths_lead_through_their_names(names: Seq<Seq<u8>>)
    requires
        names.len() > 0,
        forall|i: int| 0 <= i < names.len() ==> #[trigger] plain(names[i]),
    ensures
        components_of(path_through(names)) == seq![seq![47u8]] + names,
        absolute(path_through(names)),
    decreases names.len(),
{
    let before = names.drop_last();
    assert(plain(names[names.len() - 1]));
    further_names_are_further_components(path_through(before), names.last());
    if before.len() > 0 {
        assert forall|i: int| 0 <= i < before.len() implies #[trigger] plain(before[i]) by {
            assert(plain(names[i]));
        }
        paths_lead_through_their_names(before);
        assert((seq![seq![47u8]] + before).push(names.last()) =~= seq![seq![47u8]] + names);
    } else {
        assert(path_through(before) =~= Seq::<u8>::empty());
        assert(seq![seq![47u8]].push(names.last()) =~= seq![seq![47u8]] + names);
    }
}

/// Paths through different names are different paths: no name on the way, be it the
/// first, the last or one between, can be replaced unnoticed.
pub proof fn different_names_make_different_paths(left: Seq<Seq<u8>>, right: Seq<Seq<u8>>)
    requires
        left.len() > 0,
        right.len() > 0,
        forall|i: int| 0 <= i < left.len() ==> #[trigger] plain(left[i]),
        forall|i: int| 0 <= i < right.len() ==> #[trigger] plain(right[i]),
    ensures
        same(path_through(left), path_through(right)) <==> left == right,
{
    paths_lead_through_their_names(left);
    paths_lead_through_their_names(right);
    if same(path_through(left), path_through(right)) {
        assert((seq![seq![47u8]] + left).skip(1) =~= left);
        assert((seq![seq![47u8]] + right).skip(1) =~= right);
    }
}

/// An absolute path starts with a slash.
pub proof fn absolute_paths_start_with_a_slash(path: Seq<u8>)
    ensures
        absolute(path) <==> path.len() > 0 && path[0] == 47u8,
{
}

/// A name is numeric if it consists of the digits `0` to `9`, and of at least one.
pub proof fn numbers_consist_of_digits(name: Seq<u8>)
    ensures
        numeric(name) <==> name.len() > 0 && forall|i: int|
            0 <= i < name.len() ==> 48 <= #[trigger] name[i] <= 57,
{
}

/// The path through `proc`, a name, `fd` and a second name is a descriptor route
/// exactly if both names are numbers.
pub proof fn descriptor_routes_go_through_proc(pid: Seq<u8>, descriptor: Seq<u8>)
    requires
        plain(pid),
        plain(descriptor),
    ensures
        descriptor_route(
            path_through(
                seq![seq![112u8, 114u8, 111u8, 99u8], pid, seq![102u8, 100u8], descriptor],
            ),
        ) <==> (forall|i: int| 0 <= i < pid.len() ==> 48 <= #[trigger] pid[i] <= 57) && (forall|
            i: int,
        |
            0 <= i < descriptor.len() ==> 48 <= #[trigger] descriptor[i] <= 57),
{
    let names = seq![seq![112u8, 114u8, 111u8, 99u8], pid, seq![102u8, 100u8], descriptor];
    assert(plain(names[0]));
    assert(names[2][0] == 102u8);
    assert(plain(names[2]));
    assert forall|i: int| 0 <= i < names.len() implies #[trigger] plain(names[i]) by {
        assert(i == 0 || i == 1 || i == 2 || i == 3);
    }
    paths_lead_through_their_names(names);
    let parts = seq![seq![47u8]] + names;
    assert(parts[1] == names[0] && parts[2] == pid && parts[3] == names[2] && parts[4]
        == descriptor);
    assert(names[0] =~= proc_name());
    assert(names[2] =~= fd_name());
}

/// A path of any other shape is no descriptor route: there are four names behind the
/// first component, the first of them `proc`, the third `fd`, and the others numbers.
pub proof fn descriptor_routes_have_one_shape(path: Seq<u8>)
    ensures
        descriptor_route(path) <==> {
            let parts = components_of(path);
            &&& parts.len() == 5
            &&& parts[1] == seq![112u8, 114u8, 111u8, 99u8]
            &&& parts[3] == seq![102u8, 100u8]
            &&& parts[2].len() > 0 && forall|i: int|
                0 <= i < parts[2].len() ==> 48 <= #[trigger] parts[2][i] <= 57
            &&& parts[4].len() > 0 && forall|i: int|
                0 <= i < parts[4].len() ==> 48 <= #[trigger] parts[4][i] <= 57
        },
{
}

/// What the functions on paths return: the components of a path in order, whether
/// two paths agree in all of theirs, and whether a path starts at the root.
pub proof fn paths_are_compared_by_components(
    left: &[u8],
    right: &[u8],
    parts: Vec<Vec<u8>>,
    equal: bool,
    rooted: bool,
    route: bool,
)
    requires
        call_ensures(components, (left,), parts),
        call_ensures(same_path, (left, right), equal),
        call_ensures(is_absolute, (left,), rooted),
        call_ensures(is_descriptor_route, (left,), route),
    ensures
        parts@.len() == components_of(left@).len(),
        forall|i: int| 0 <= i < parts@.len() ==> #[trigger] parts@[i]@ == components_of(left@)[i],
        equal <==> components_of(left@) == components_of(right@),
        rooted <==> left@.len() > 0 && left@[0] == 47u8,
        route <==> descriptor_route(left@),
{
    assert(views(parts@).len() == parts@.len());
    assert forall|i: int| 0 <= i < parts@.len() implies #[trigger] parts@[i]@ == components_of(
        left@,
    )[i] by {
        assert(views(parts@)[i] == parts@[i]@);
    }
}

} // verus!
