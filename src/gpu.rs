//! Decisions of the GPU context's lifecycle: which of the platform's
//! extension entries the instance is created with, and in what order the
//! resources that were created are destroyed.
use vstd::prelude::*;

verus! {

/// Why a GPU context could not be made.
#[derive(Debug, Clone, Copy, PartialEq, Eq, Structural)]
pub enum GpuSetupError {
    /// The API entry point could not be loaded.
    EntryLoad,
    /// The windowing backend could not list its required extensions.
    ExtensionQuery,
    /// No entry of the extension list names an extension.
    NoValidExtensions,
    /// The instance could not be created.
    InstanceCreation,
    /// The window surface could not be created.
    SurfaceCreation,
}

/// An entry of the platform's extension list names an extension when it is
/// present (not null) and not empty. An entry is given as the bytes of its
/// name, without the terminating nul.
pub open spec fn entry_valid(entry: Option<Vec<u8>>) -> bool {
    match entry {
        Some(name) => name@.len() > 0,
        None => false,
    }
}

pub open spec fn validity(raw: Seq<Option<Vec<u8>>>) -> Seq<bool> {
    raw.map_values(|e: Option<Vec<u8>>| entry_valid(e))
}

/// The positions, in increasing order, of the flags equal to `wanted`.
pub open spec fn positions(flags: Seq<bool>, wanted: bool) -> Seq<int>
    decreases flags.len(),
{
    if flags.len() == 0 {
        Seq::empty()
    } else {
        let front = positions(flags.drop_last(), wanted);
        if flags.last() == wanted {
            front.push(flags.len() - 1)
        } else {
            front
        }
    }
}

pub open spec fn as_ints(v: Seq<usize>) -> Seq<int> {
    v.map_values(|k: usize| k as int)
}

/// The positions of the flags equal to `wanted` are flags equal to `wanted`,
/// and the two kinds of position together count every flag.
pub proof fn lemma_positions(flags: Seq<bool>, wanted: bool)
    ensures
        positions(flags, true).len() + positions(flags, false).len() == flags.len(),
        forall|j: int|
            0 <= j < positions(flags, wanted).len() ==> {
                let k = #[trigger] positions(flags, wanted)[j];
                0 <= k < flags.len() && flags[k] == wanted
            },
        forall|k: int|
            0 <= k < flags.len() && #[trigger] flags[k] == wanted ==> positions(
                flags,
                wanted,
            ).contains(k),
    decreases flags.len(),
{
    if flags.len() > 0 {
        let front = flags.drop_last();
        lemma_positions(front, wanted);
        let p = positions(flags, wanted);
        let q = positions(front, wanted);
        assert forall|k: int| 0 <= k < flags.len() && #[trigger] flags[k] == wanted implies p.contains(
            k,
        ) by {
            if k < flags.len() - 1 {
                assert(front[k] == flags[k]);
                let j = choose|j: int| 0 <= j < q.len() && q[j] == k;
                assert(p[j] == q[j]);
            } else {
                assert(p[q.len() as int] == k);
            }
        }
        assert forall|j: int| 0 <= j < p.len() implies {
            let k = #[trigger] p[j];
            0 <= k < flags.len() && flags[k] == wanted
        } by {
            if j < q.len() {
                assert(p[j] == q[j]);
                assert(front[q[j]] == flags[q[j]]);
            }
        }
    }
}

/// Checking the extension list sorts every entry into exactly one of two
/// kinds: the kept positions are entries that name an extension, the
/// rejected ones entries that do not, and together they count every entry.
pub proof fn lemma_selection_partitions(raw: Seq<Option<Vec<u8>>>)
    ensures
        positions(validity(raw), true).len() + positions(validity(raw), false).len() == raw.len(),
        forall|j: int|
            0 <= j < positions(validity(raw), true).len() ==> {
                let k = #[trigger] positions(validity(raw), true)[j];
                0 <= k < raw.len() && entry_valid(raw[k])
            },
        forall|j: int|
            0 <= j < positions(validity(raw), false).len() ==> {
                let k = #[trigger] positions(validity(raw), false)[j];
                0 <= k < raw.len() && !entry_valid(raw[k])
            },
        forall|k: int|
            0 <= k < raw.len() ==> if entry_valid(#[trigger] raw[k]) {
                positions(validity(raw), true).contains(k)
            } else {
                positions(validity(raw), false).contains(k)
            },
{
    let flags = validity(raw);
    lemma_positions(flags, true);
    lemma_positions(flags, false);
    assert forall|k: int| 0 <= k < raw.len() implies if entry_valid(#[trigger] raw[k]) {
        positions(flags, true).contains(k)
    } else {
        positions(flags, false).contains(k)
    } by {
        assert(flags[k] == entry_valid(raw[k]));
    }
}

/// The outcome of checking the platform's extension list.
pub struct ExtensionSelection {
    /// Positions of the entries the instance is created with, in list order.
    pub kept: Vec<usize>,
    /// Positions of the entries left out, in list order.
    pub rejected: Vec<usize>,
}

/// Keeps the entries of the platform's extension list that name an
/// extension, and fails when none does.
pub fn select_extensions(raw: &Vec<Option<Vec<u8>>>) -> (r: Result<
    ExtensionSelection,
    GpuSetupError,
>)
    ensures
        r is Ok <==> exists|k: int| 0 <= k < raw@.len() && entry_valid(#[trigger] raw@[k]),
        r is Ok <==> positions(validity(raw@), true).len() > 0,
        r is Err ==> r == Err::<ExtensionSelection, GpuSetupError>(
            GpuSetupError::NoValidExtensions,
        ),
        r matches Ok(sel) ==> {
            &&& as_ints(sel.kept@) == positions(validity(raw@), true)
            &&& as_ints(sel.rejected@) == positions(validity(raw@), false)
        },
{
    let ghost flags = validity(raw@);
    let mut kept: Vec<usize> = Vec::new();
    let mut rejected: Vec<usize> = Vec::new();
    let mut i: usize = 0;
    while i < raw.len()
        invariant
            i <= raw@.len(),
            flags == validity(raw@),
            as_ints(kept@) == positions(flags.subrange(0, i as int), true),
            as_ints(rejected@) == positions(flags.subrange(0, i as int), false),
        decreases raw@.len() - i,
    {
        let valid = match &raw[i] {
            Some(name) => name.len() > 0,
            None => false,
        };
        proof {
            assert(flags.subrange(0, i + 1).drop_last() =~= flags.subrange(0, i as int));
        }
        if valid {
            assert(as_ints(kept@.push(i)) =~= as_ints(kept@).push(i as int));
            kept.push(i);
        } else {
            assert(as_ints(rejected@.push(i)) =~= as_ints(rejected@).push(i as int));
            rejected.push(i);
        }
        i = i + 1;
    }
    assert(flags.subrange(0, raw@.len() as int) =~= flags);
    proof {
        lemma_positions(flags, true);
        if positions(flags, true).len() > 0 {
            let k = positions(flags, true)[0];
            assert(flags[k]);
            assert(entry_valid(raw@[k]));
        }
        assert forall|k: int| 0 <= k < raw@.len() && entry_valid(#[trigger] raw@[k]) implies positions(
            flags,
            true,
        ).len() > 0 by {
            assert(flags[k]);
        }
    }
    if kept.len() == 0 {
        Err(GpuSetupError::NoValidExtensions)
    } else {
        Ok(ExtensionSelection { kept, rejected })
    }
}

/// One destruction the GPU context performs at teardown.
#[derive(Debug, Clone, Copy, PartialEq, Eq, Structural)]
pub enum Teardown {
    DestroySurface,
    DestroyInstance,
}

/// Which of the GPU context's resources are alive. The surface is made from
/// the instance, so it never outlives it.
#[derive(Debug, Clone, Copy, PartialEq, Eq, Structural)]
pub struct GpuResources {
    pub instance_live: bool,
    pub surface_live: bool,
}

/// The destructions that release the live resources: the surface before the
/// instance, each once.
pub open spec fn release_plan(res: GpuResources) -> Seq<Teardown> {
    (if res.surface_live {
        seq![Teardown::DestroySurface]
    } else {
        Seq::empty()
    }) + (if res.instance_live {
        seq![Teardown::DestroyInstance]
    } else {
        Seq::empty()
    })
}

pub open spec fn nothing_live() -> GpuResources {
    GpuResources { instance_live: false, surface_live: false }
}

impl GpuResources {
    pub open spec fn wf(&self) -> bool {
        self.surface_live ==> self.instance_live
    }

    /// Nothing created yet.
    pub fn new() -> (r: Self)
        ensures
            r == nothing_live(),
    {
        GpuResources { instance_live: false, surface_live: false }
    }

    /// Records that the instance was created.
    pub fn instance_created(&mut self)
        requires
            old(self).wf(),
            !old(self).instance_live,
        ensures
            final(self).wf(),
            final(self).instance_live,
            final(self).surface_live == old(self).surface_live,
    {
        self.instance_live = true;
    }

    /// Records that the surface was created from the live instance.
    pub fn surface_created(&mut self)
        requires
            old(self).wf(),
            old(self).instance_live,
            !old(self).surface_live,
        ensures
            final(self).wf(),
            final(self).instance_live,
            final(self).surface_live,
    {
        self.surface_live = true;
    }

    /// The destructions to perform now, in order; afterwards nothing is
    /// live, so a second call asks for none.
    pub fn release(&mut self) -> (r: Vec<Teardown>)
        requires
            old(self).wf(),
        ensures
            r@ == release_plan(*old(self)),
            *final(self) == nothing_live(),
    {
        let mut plan: Vec<Teardown> = Vec::new();
        if self.surface_live {
            plan.push(Teardown::DestroySurface);
        }
        if self.instance_live {
            plan.push(Teardown::DestroyInstance);
        }
        self.surface_live = false;
        self.instance_live = false;
        assert(plan@ =~= release_plan(*old(self)));
        plan
    }
}

/// Teardown may be asked for any number of times: the first release destroys
/// each live resource exactly once, the surface before the instance, and a
/// second release destroys nothing.
pub proof fn lemma_release_idempotent(res: GpuResources)
    requires
        res.wf(),
    ensures
        release_plan(nothing_live()) == Seq::<Teardown>::empty(),
        release_plan(res) + release_plan(nothing_live()) == release_plan(res),
        release_plan(res).no_duplicates(),
        release_plan(res).contains(Teardown::DestroySurface) <==> res.surface_live,
        release_plan(res).contains(Teardown::DestroyInstance) <==> res.instance_live,
        res.surface_live ==> release_plan(res)[0] == Teardown::DestroySurface,
        res.instance_live ==> release_plan(res).last() == Teardown::DestroyInstance,
{
    let plan = release_plan(res);
    assert(release_plan(nothing_live()) =~= Seq::<Teardown>::empty());
    assert(plan + Seq::<Teardown>::empty() =~= plan);
    if res.surface_live {
        assert(plan =~= seq![Teardown::DestroySurface, Teardown::DestroyInstance]);
        assert(plan[0] == Teardown::DestroySurface);
        assert(plan[1] == Teardown::DestroyInstance);
    } else if res.instance_live {
        assert(plan =~= seq![Teardown::DestroyInstance]);
        assert(plan[0] == Teardown::DestroyInstance);
    } else {
        assert(plan =~= Seq::<Teardown>::empty());
    }
}

} // verus!
