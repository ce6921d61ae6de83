//! The renderer's decisions: which surface format it uses, what it does with
//! each acquired surface texture, and its pool of per-mesh resources.
use vstd::prelude::*;

verus! {

/// Whether position `i` holds the surface format the renderer picks, given
/// which of the surface's formats are sRGB: the first sRGB one, or the first
/// format if none is.
pub open spec fn is_chosen_format(is_srgb: Seq<bool>, i: int) -> bool {
    &&& 0 <= i < is_srgb.len()
    &&& if exists|j: int| 0 <= j < is_srgb.len() && is_srgb[j] {
        &&& is_srgb[i]
        &&& forall|j: int| 0 <= j < i ==> !is_srgb[j]
    } else {
        i == 0
    }
}

/// The position of the surface format the renderer uses, given which of the
/// surface's formats are sRGB. A surface without formats is a caller error,
/// ruled out by the precondition.
pub fn surface_format_index(is_srgb: &Vec<bool>) -> (res: usize)
    requires
        is_srgb@.len() > 0,
    ensures
        is_chosen_format(is_srgb@, res as int),
{
    let mut i: usize = 0;
    while i < is_srgb.len()
        invariant
            i <= is_srgb@.len(),
            forall|j: int| 0 <= j < i ==> !is_srgb@[j],
        decreases is_srgb@.len() - i,
    {
        if is_srgb[i] {
            return i;
        }
        i = i + 1;
    }
    0
}

/// What acquiring the next surface texture came to.
pub enum SurfaceStatus {
    Success,
    Suboptimal,
    Timeout,
    Occluded,
    Outdated,
    Lost,
    Validation,
}

/// What the renderer does with the frame after acquiring a surface texture.
pub enum FrameAction {
    /// Draw into the texture and present it.
    Draw,
    /// Skip this frame.
    Skip,
    /// Reconfigure the surface and skip this frame.
    Reconfigure,
}

/// What the renderer does given the status of the surface texture. A lost
/// surface is a caller error (the renderer gives up), ruled out by the
/// precondition.
pub fn frame_action(status: SurfaceStatus) -> (res: FrameAction)
    requires
        !(status is Lost),
    ensures
        res is Draw <==> (status is Success || status is Suboptimal),
        res is Reconfigure <==> status is Outdated,
        res is Skip <==> (status is Timeout || status is Occluded || status is Validation),
{
    match status {
        SurfaceStatus::Success | SurfaceStatus::Suboptimal => FrameAction::Draw,
        SurfaceStatus::Timeout | SurfaceStatus::Occluded | SurfaceStatus::Validation => FrameAction::Skip,
        SurfaceStatus::Outdated => FrameAction::Reconfigure,
        SurfaceStatus::Lost => vstd::pervasive::unreached(),
    }
}

/// Whether `i` is the first position in `names` that holds `name`.
pub open spec fn is_first_with_name(names: Seq<Seq<char>>, name: Seq<char>, i: int) -> bool {
    &&& 0 <= i < names.len()
    &&& names[i] == name
    &&& forall|j: int| 0 <= j < i ==> names[j] != name
}

/// The first position in `names` that holds `name`, where there is one.
pub open spec fn first_with_name(names: Seq<Seq<char>>, name: Seq<char>) -> int {
    choose|i: int| is_first_with_name(names, name, i)
}

/// There is at most one first position of a name.
pub proof fn lemma_first_with_name_unique(names: Seq<Seq<char>>, name: Seq<char>, i: int, k: int)
    requires
        is_first_with_name(names, name, i),
        is_first_with_name(names, name, k),
    ensures
        i == k,
{
    if k < i {
        assert(names[k] == name);
    } else if i < k {
        assert(names[i] == name);
    }
}

/// Resources made for meshes, each under the name of its mesh, in the order
/// they were pooled. A name may occur more than once; the first wins.
pub struct ResourcePool<R> {
    entries: Vec<(String, R)>,
}

impl<R> ResourcePool<R> {
    /// The names of the pooled resources, in pooling order.
    pub closed spec fn names(&self) -> Seq<Seq<char>> {
        self.entries@.map_values(|e: (String, R)| e.0@)
    }

    /// The pooled resources, in pooling order.
    pub closed spec fn resources(&self) -> Seq<R> {
        self.entries@.map_values(|e: (String, R)| e.1)
    }

    /// There is one name per resource.
    pub proof fn lemma_names_match_resources(&self)
        ensures
            self.names().len() == self.resources().len(),
    {
    }

    /// Whether some resource is pooled under `name`.
    pub open spec fn has(&self, name: Seq<char>) -> bool {
        self.names().contains(name)
    }

    /// The resource that a lookup of `name` finds: the first pooled under it.
    pub open spec fn found(&self, name: Seq<char>) -> R {
        self.resources()[first_with_name(self.names(), name)]
    }

    /// An empty pool.
    pub fn new() -> (res: Self)
        ensures
            res.names() == Seq::<Seq<char>>::empty(),
            res.resources() == Seq::<R>::empty(),
    {
        let res = ResourcePool { entries: Vec::new() };
        assert(res.names() =~= Seq::<Seq<char>>::empty());
        assert(res.resources() =~= Seq::<R>::empty());
        res
    }

    /// Pools `resource` under `name`, after all others.
    pub fn push(&mut self, name: String, resource: R)
        ensures
            final(self).names() == old(self).names().push(name@),
            final(self).resources() == old(self).resources().push(resource),
    {
        let ghost n = name@;
        self.entries.push((name, resource));
        assert(self.names() =~= old(self).names().push(n));
        assert(self.resources() =~= old(self).resources().push(resource));
    }

    /// The position of the first resource pooled under `name`, if any.
    fn position(&self, name: &String) -> (res: Option<usize>)
        ensures
            match res {
                Some(i) => is_first_with_name(self.names(), name@, i as int),
                None => !self.has(name@),
            },
    {
        let mut i: usize = 0;
        while i < self.entries.len()
            invariant
                i <= self.entries@.len(),
                self.names().len() == self.entries@.len(),
                forall|j: int| 0 <= j < i ==> self.names()[j] != name@,
            decreases self.entries@.len() - i,
        {
            if self.entries[i].0 == *name {
                return Some(i);
            }
            i = i + 1;
        }
        proof {
            if self.has(name@) {
                let j = choose|j: int| 0 <= j < self.names().len() && self.names()[j] == name@;
                assert(self.names()[j] == name@);
            }
        }
        None
    }

    /// Whether some resource is pooled under `name`.
    pub fn contains(&self, name: &String) -> (res: bool)
        ensures
            res == self.has(name@),
    {
        match self.position(name) {
            Some(i) => {
                assert(self.names()[i as int] == name@);
                true
            },
            None => false,
        }
    }

    /// The first resource pooled under `name`. Asking for a name that
    /// nothing is pooled under is a caller error, ruled out by the
    /// precondition.
    pub fn find(&self, name: &String) -> (res: &R)
        requires
            self.has(name@),
        ensures
            *res == self.found(name@),
    {
        match self.position(name) {
            Some(i) => {
                proof {
                    let k = first_with_name(self.names(), name@);
                    lemma_first_with_name_unique(self.names(), name@, i as int, k);
                }
                &self.entries[i].1
            },
            None => vstd::pervasive::unreached(),
        }
    }
}

/// A lookup finds the resource pooled under a name that was new; pooling
/// under a name already there changes what no lookup finds, since the first
/// resource under a name wins.
pub proof fn law_pool_find_after_push<R>(
    before: ResourcePool<R>,
    after: ResourcePool<R>,
    name: Seq<char>,
    resource: R,
    other: Seq<char>,
)
    requires
        after.names() == before.names().push(name),
        after.resources() == before.resources().push(resource),
    ensures
        after.has(name),
        !before.has(name) ==> after.found(name) == resource,
        before.has(other) ==> after.found(other) == before.found(other),
{
    before.lemma_names_match_resources();
    let n = before.names().len() as int;
    assert(after.names()[n] == name);
    if !before.has(name) {
        assert forall|j: int| 0 <= j < n implies after.names()[j] != name by {
            assert(after.names()[j] == before.names()[j]);
            if after.names()[j] == name {
                assert(before.names().contains(name));
            }
        }
        assert(is_first_with_name(after.names(), name, n));
        lemma_first_with_name_unique(after.names(), name, n, first_with_name(after.names(), name));
    }
    if before.has(other) {
        let j = choose|j: int| 0 <= j < before.names().len() && before.names()[j] == other;
        // the earliest position of `other` in `before`
        let f = first_with_name_witness(before.names(), other, j);
        assert(is_first_with_name(after.names(), other, f));
        lemma_first_with_name_unique(before.names(), other, f, first_with_name(before.names(), other));
        lemma_first_with_name_unique(after.names(), other, f, first_with_name(after.names(), other));
    }
}

/// Where `name` is at `j`, there is a first position that holds it.
pub proof fn first_with_name_witness(names: Seq<Seq<char>>, name: Seq<char>, j: int) -> (f: int)
    requires
        0 <= j < names.len(),
        names[j] == name,
    ensures
        is_first_with_name(names, name, f),
        f <= j,
    decreases j,
{
    if exists|k: int| 0 <= k < j && names[k] == name {
        let k = choose|k: int| 0 <= k < j && names[k] == name;
        first_with_name_witness(names, name, k)
    } else {
        j
    }
}

} // verus!
