//! Which globals of the compositor are outputs, and at which version each
//! output is bound.

use vstd::prelude::*;

verus! {

/// A global advertised by the compositor.
#[derive(Debug)]
pub struct GlobalEntry {
    /// Name of the interface the global implements.
    pub interface: String,
    /// Highest version of the interface the compositor supports.
    pub version: u32,
}

/// An output to bind: the position of its global in the advertised list,
/// the index the output gets among the outputs, and the version to bind.
#[derive(Clone, Copy, Debug, PartialEq, Eq, Structural)]
pub struct OutputBinding {
    pub global: usize,
    pub index: usize,
    pub version: u32,
}

/// Why the overlay cannot be set up.
#[derive(Clone, Copy, Debug, PartialEq, Eq, Structural)]
pub enum SetupError {
    /// The compositor advertises no output.
    NoOutputs,
}

impl SetupError {
    /// The text shown to the user for this error.
    pub fn message(&self) -> (text: String)
        ensures
            text@ == "compositor did not advertise any wl_output globals"@,
    {
        "compositor did not advertise any wl_output globals".to_owned()
    }
}

pub open spec fn min_version(a: u32, b: u32) -> u32 {
    if a < b {
        a
    } else {
        b
    }
}

/// The bindings for the outputs among the first `n` globals, in order.
pub open spec fn planned_bindings(
    globals: Seq<GlobalEntry>,
    interface: Seq<char>,
    supported: u32,
    n: nat,
) -> Seq<OutputBinding>
    decreases n,
{
    if n == 0 {
        Seq::empty()
    } else {
        let before = planned_bindings(globals, interface, supported, (n - 1) as nat);
        let g = globals[n - 1];
        if g.interface@ == interface {
            before.push(
                OutputBinding {
                    global: (n - 1) as usize,
                    index: before.len() as usize,
                    version: min_version(g.version, supported),
                },
            )
        } else {
            before
        }
    }
}

proof fn lemma_planned_len(globals: Seq<GlobalEntry>, interface: Seq<char>, supported: u32, n: nat)
    ensures
        planned_bindings(globals, interface, supported, n).len() <= n,
    decreases n,
{
    if n > 0 {
        lemma_planned_len(globals, interface, supported, (n - 1) as nat);
    }
}

/// The outputs to bind: every global of interface `interface`, numbered in
/// the order advertised, each bound at the lower of its advertised version
/// and `supported`. Without any output the overlay cannot be shown.
pub fn plan_output_bindings(globals: &Vec<GlobalEntry>, interface: &String, supported: u32) -> (result:
    Result<Vec<OutputBinding>, SetupError>)
    ensures
        match result {
            Ok(bindings) => bindings@ == planned_bindings(
                globals@,
                interface@,
                supported,
                globals@.len(),
            ) && bindings@.len() > 0,
            Err(e) => e == SetupError::NoOutputs && planned_bindings(
                globals@,
                interface@,
                supported,
                globals@.len(),
            ).len() == 0,
        },
{
    let mut bindings: Vec<OutputBinding> = Vec::new();
    let mut i: usize = 0;
    while i < globals.len()
        invariant
            i <= globals.len(),
            bindings@ == planned_bindings(globals@, interface@, supported, i as nat),
        decreases globals.len() - i,
    {
        proof {
            lemma_planned_len(globals@, interface@, supported, i as nat);
        }
        let g = &globals[i];
        if g.interface.eq(interface) {
            let version = if g.version < supported {
                g.version
            } else {
                supported
            };
            let index = bindings.len();
            bindings.push(OutputBinding { global: i, index, version });
        }
        i = i + 1;
    }
    if bindings.len() == 0 {
        Err(SetupError::NoOutputs)
    } else {
        Ok(bindings)
    }
}

/// Each planned binding is for a global of the wanted interface, the
/// bindings are numbered 0, 1, 2, ... in the order of their globals, and no
/// version exceeds what either side supports.
pub proof fn lemma_bindings_sound(
    globals: Seq<GlobalEntry>,
    interface: Seq<char>,
    supported: u32,
    n: nat,
)
    requires
        n <= globals.len(),
        n <= usize::MAX,
    ensures
        ({
            let plan = planned_bindings(globals, interface, supported, n);
            &&& forall|k: int|
                0 <= k < plan.len() ==> {
                    &&& #[trigger] plan[k].index == k
                    &&& plan[k].global < n
                    &&& globals[plan[k].global as int].interface@ == interface
                    &&& plan[k].version == min_version(
                        globals[plan[k].global as int].version,
                        supported,
                    )
                    &&& plan[k].version <= supported
                }
            &&& forall|k: int, l: int|
                0 <= k < l < plan.len() ==> #[trigger] plan[k].global < #[trigger] plan[l].global
        }),
    decreases n,
{
    if n > 0 {
        lemma_bindings_sound(globals, interface, supported, (n - 1) as nat);
        lemma_planned_len(globals, interface, supported, (n - 1) as nat);
        let before = planned_bindings(globals, interface, supported, (n - 1) as nat);
        let plan = planned_bindings(globals, interface, supported, n);
        if globals[n - 1].interface@ == interface {
            assert forall|k: int| 0 <= k < before.len() implies plan[k] == before[k] by {}
            assert forall|k: int| 0 <= k < plan.len() implies {
                &&& #[trigger] plan[k].index == k
                &&& plan[k].global < n
                &&& globals[plan[k].global as int].interface@ == interface
                &&& plan[k].version == min_version(globals[plan[k].global as int].version, supported)
                &&& plan[k].version <= supported
            } by {
                if k < before.len() {
                    assert(plan[k] == before[k]);
                    assert(before[k].index == k);
                } else {
                    assert(plan[k].global == n - 1);
                }
            }
            assert forall|k: int, l: int|
                0 <= k < l < plan.len() implies #[trigger] plan[k].global
                < #[trigger] plan[l].global by {
                assert(plan[k] == before[k]);
                assert(before[k].index == k);
                if l < before.len() {
                    assert(plan[l] == before[l]);
                    assert(before[l].index == l);
                }
            }
        }
    }
}

/// Every global of the wanted interface among the first `n` gets a binding.
pub proof fn lemma_bindings_complete(
    globals: Seq<GlobalEntry>,
    interface: Seq<char>,
    supported: u32,
    n: nat,
    j: int,
)
    requires
        n <= globals.len(),
        n <= usize::MAX,
        0 <= j < n,
        globals[j].interface@ == interface,
    ensures
        exists|k: int|
            0 <= k < planned_bindings(globals, interface, supported, n).len()
                && #[trigger] planned_bindings(globals, interface, supported, n)[k].global == j,
    decreases n,
{
    let plan = planned_bindings(globals, interface, supported, n);
    lemma_planned_len(globals, interface, supported, (n - 1) as nat);
    if j == n - 1 {
        assert(plan[plan.len() - 1].global == j);
    } else {
        lemma_bindings_complete(globals, interface, supported, (n - 1) as nat, j);
        let before = planned_bindings(globals, interface, supported, (n - 1) as nat);
        let k = choose|k: int| 0 <= k < before.len() && #[trigger] before[k].global == j;
        assert(plan[k] == before[k]);
    }
}

} // verus!
