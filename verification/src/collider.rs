use vstd::prelude::*;

verus! {

/// The kinds of convex shapes a collider can have.
#[derive(PartialEq, Eq, Structural, Clone, Copy, Debug)]
pub enum ColliderType {
    Sphere,
    Capsule,
    Cylinder,
    Box,
    Mesh,
}

/// The name by which a collider kind is written in a test file.
pub open spec fn kind_name(k: ColliderType) -> Seq<char> {
    match k {
        ColliderType::Sphere => seq!['S', 'p', 'h', 'e', 'r', 'e'],
        ColliderType::Capsule => seq!['C', 'a', 'p', 's', 'u', 'l', 'e'],
        ColliderType::Cylinder => seq!['C', 'y', 'l', 'i', 'n', 'd', 'e', 'r'],
        ColliderType::Box => seq!['B', 'o', 'x'],
        ColliderType::Mesh => seq!['M', 'e', 's', 'h'],
    }
}

/// The kind whose name is `name`, if any.
pub open spec fn kind_named(name: Seq<char>) -> Option<ColliderType> {
    if name == kind_name(ColliderType::Sphere) {
        Some(ColliderType::Sphere)
    } else if name == kind_name(ColliderType::Capsule) {
        Some(ColliderType::Capsule)
    } else if name == kind_name(ColliderType::Cylinder) {
        Some(ColliderType::Cylinder)
    } else if name == kind_name(ColliderType::Box) {
        Some(ColliderType::Box)
    } else if name == kind_name(ColliderType::Mesh) {
        Some(ColliderType::Mesh)
    } else {
        None
    }
}

/// The kinds that a random collider can have, by the number drawn from `0..=2`.
pub open spec fn random_kind(k: u32) -> ColliderType {
    if k == 0 {
        ColliderType::Sphere
    } else if k == 1 {
        ColliderType::Capsule
    } else {
        ColliderType::Cylinder
    }
}

fn same_text(s: &str, w: &[char]) -> (b: bool)
    ensures
        b == (s@ == w@),
{
    let n = s.unicode_len();
    if n != w.len() {
        return false;
    }
    let mut i: usize = 0;
    while i < n
        invariant
            n == s@.len(),
            n == w@.len(),
            i <= n,
            forall|j: int| 0 <= j < i ==> s@[j] == w@[j],
        decreases n - i,
    {
        if s.get_char(i) != w[i] {
            return false;
        }
        i = i + 1;
    }
    assert(s@ =~= w@);
    true
}

impl ColliderType {
    /// The kind named `name` ("Sphere", "Capsule", "Cylinder", "Box" or "Mesh").
    pub fn from_name(name: &str) -> (k: Option<ColliderType>)
        ensures
            k == kind_named(name@),
    {
        let sphere = ['S', 'p', 'h', 'e', 'r', 'e'];
        let capsule = ['C', 'a', 'p', 's', 'u', 'l', 'e'];
        let cylinder = ['C', 'y', 'l', 'i', 'n', 'd', 'e', 'r'];
        let boxed = ['B', 'o', 'x'];
        let mesh = ['M', 'e', 's', 'h'];
        assert(sphere@ =~= kind_name(ColliderType::Sphere));
        assert(capsule@ =~= kind_name(ColliderType::Capsule));
        assert(cylinder@ =~= kind_name(ColliderType::Cylinder));
        assert(boxed@ =~= kind_name(ColliderType::Box));
        assert(mesh@ =~= kind_name(ColliderType::Mesh));
        if same_text(name, &sphere) {
            Some(ColliderType::Sphere)
        } else if same_text(name, &capsule) {
            Some(ColliderType::Capsule)
        } else if same_text(name, &cylinder) {
            Some(ColliderType::Cylinder)
        } else if same_text(name, &boxed) {
            Some(ColliderType::Box)
        } else if same_text(name, &mesh) {
            Some(ColliderType::Mesh)
        } else {
            None
        }
    }

    /// The kind of a random collider, from a number drawn from `0..=2`.
    pub fn from_random_index(k: u32) -> (c: ColliderType)
        requires
            k <= 2,
        ensures
            c == random_kind(k),
    {
        if k == 0 {
            ColliderType::Sphere
        } else if k == 1 {
            ColliderType::Capsule
        } else {
            ColliderType::Cylinder
        }
    }
}

} // verus!
