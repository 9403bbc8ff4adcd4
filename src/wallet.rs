//! Loading or creating the two wallets of the settlement.

use vstd::prelude::*;
use vstd::string::*;

verus! {

/// How the node refused to load a wallet.
#[derive(Clone, Copy, PartialEq, Eq, Structural, Debug)]
pub enum LoadFailure {
    /// The node has no wallet of that name.
    NotFound,
    /// The wallet is loaded already.
    AlreadyLoaded,
    /// Any other refusal.
    Other,
}

/// The node's answer to a request to load a wallet.
#[derive(Clone, Copy, PartialEq, Eq, Structural, Debug)]
pub enum LoadOutcome {
    Loaded,
    Failed(LoadFailure),
}

/// What to do after a load request.
#[derive(Clone, Copy, PartialEq, Eq, Structural, Debug)]
pub enum WalletStep {
    /// The wallet is loaded: go on.
    Ready,
    /// The wallet does not exist: create it.
    Create,
    /// The node refused for another reason: stop the run.
    Abort,
}

/// `pat` occurs somewhere in `s`.
pub open spec fn has_text(s: Seq<char>, pat: Seq<char>) -> bool {
    exists|i: int| 0 <= i && i + pat.len() <= s.len() && #[trigger] s.subrange(i, i + pat.len()) == pat
}

/// Whether `pat` occurs in `s`.
pub fn contains_text(s: &str, pat: &str) -> (r: bool)
    ensures
        r == has_text(s@, pat@),
{
    let n = s.unicode_len();
    let m = pat.unicode_len();
    if m > n {
        return false;
    }
    let mut i: usize = 0;
    while i <= n - m
        invariant
            n == s@.len(),
            m == pat@.len(),
            m <= n,
            i <= n - m + 1,
            forall|k: int| 0 <= k < i ==> #[trigger] s@.subrange(k, k + m) != pat@,
        decreases n - m + 1 - i,
    {
        let mut j: usize = 0;
        let mut same = true;
        while j < m
            invariant
                n == s@.len(),
                m == pat@.len(),
                i + m <= n,
                j <= m,
                same == forall|q: int| 0 <= q < j ==> s@[i + q] == pat@[q],
            decreases m - j,
        {
            if s.get_char(i + j) != pat.get_char(j) {
                same = false;
            }
            j = j + 1;
        }
        if same {
            assert(s@.subrange(i as int, i + m) =~= pat@);
            return true;
        }
        assert(s@.subrange(i as int, i + m)[0] == s@[i as int + 0]);
        assert(s@.subrange(i as int, i + m) != pat@) by {
            let q = choose|q: int| 0 <= q < m && s@[i + q] != pat@[q];
            assert(s@.subrange(i as int, i + m)[q] == s@[i + q]);
        }
        i = i + 1;
    }
    false
}

/// The failure that a refusal's message names.
pub open spec fn failure_of(message: Seq<char>) -> LoadFailure {
    if has_text(message, "Path does not exist"@) {
        LoadFailure::NotFound
    } else if has_text(message, "already loaded"@) {
        LoadFailure::AlreadyLoaded
    } else {
        LoadFailure::Other
    }
}

/// Classifies the message with which the node refused to load a wallet.
pub fn classify_load_failure(message: &str) -> (r: LoadFailure)
    ensures
        r == failure_of(message@),
{
    if contains_text(message, "Path does not exist") {
        LoadFailure::NotFound
    } else if contains_text(message, "already loaded") {
        LoadFailure::AlreadyLoaded
    } else {
        LoadFailure::Other
    }
}

pub open spec fn step_of(outcome: LoadOutcome) -> WalletStep {
    match outcome {
        LoadOutcome::Loaded => WalletStep::Ready,
        LoadOutcome::Failed(LoadFailure::AlreadyLoaded) => WalletStep::Ready,
        LoadOutcome::Failed(LoadFailure::NotFound) => WalletStep::Create,
        LoadOutcome::Failed(LoadFailure::Other) => WalletStep::Abort,
    }
}

/// Decides what follows a load request: a loaded wallet is ready, a missing
/// one is created, any other refusal ends the run.
pub fn wallet_step(outcome: LoadOutcome) -> (r: WalletStep)
    ensures
        r == step_of(outcome),
{
    match outcome {
        LoadOutcome::Loaded => WalletStep::Ready,
        LoadOutcome::Failed(LoadFailure::AlreadyLoaded) => WalletStep::Ready,
        LoadOutcome::Failed(LoadFailure::NotFound) => WalletStep::Create,
        LoadOutcome::Failed(LoadFailure::Other) => WalletStep::Abort,
    }
}

/// The node's answer to loading `name`, where `stored` are the wallets it
/// keeps and `loaded` those it has loaded.
pub open spec fn load_answer(stored: Set<Seq<char>>, loaded: Set<Seq<char>>, name: Seq<char>) -> LoadOutcome {
    if loaded.contains(name) {
        LoadOutcome::Failed(LoadFailure::AlreadyLoaded)
    } else if stored.contains(name) {
        LoadOutcome::Loaded
    } else {
        LoadOutcome::Failed(LoadFailure::NotFound)
    }
}

/// The stored and loaded wallets after ensuring `name`.
pub open spec fn after_ensure(stored: Set<Seq<char>>, loaded: Set<Seq<char>>, name: Seq<char>) -> (
    Set<Seq<char>>,
    Set<Seq<char>>,
) {
    match step_of(load_answer(stored, loaded, name)) {
        WalletStep::Ready => {
            if loaded.contains(name) {
                (stored, loaded)
            } else {
                (stored, loaded.insert(name))
            }
        },
        WalletStep::Create => (stored.insert(name), loaded.insert(name)),
        WalletStep::Abort => (stored, loaded),
    }
}

/// Ensuring a wallet a second time, on the node as the first time left it,
/// finds it without creating it and changes nothing.
pub proof fn lemma_ensure_idempotent(stored: Set<Seq<char>>, loaded: Set<Seq<char>>, name: Seq<char>)
    ensures
        ({
            let (s1, l1) = after_ensure(stored, loaded, name);
            &&& s1.contains(name) || l1.contains(name)
            &&& step_of(load_answer(s1, l1, name)) == WalletStep::Ready
            &&& after_ensure(s1, l1, name) == (s1, l1)
        }),
{
}

} // verus!
