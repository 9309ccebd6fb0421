//! Merge backend selection.
//!
//! Compositing the rendered overlay onto the template is delegated to
//! an external merge process. This module decides which backend a job
//! uses; checking and installing that backend's dependencies is the
//! caller's concern.

use vstd::prelude::*;

verus! {

/// The available merge backends.
#[derive(Debug, Clone, Copy, PartialEq, Eq)]
pub enum MergeBackend {
    /// An external Python process.
    Python,
    /// An external Bun process.
    Bun,
}

/// The error for an unknown backend name.
pub open spec fn unknown_backend_err(backend: Seq<char>) -> Seq<char> {
    "Unknown backend: "@ + backend + ". Use 'python' or 'bun'"@
}

/// Compares two strings character by character.
fn str_eq(a: &str, b: &str) -> (r: bool)
    ensures
        r == (a@ == b@),
{
    let na = a.unicode_len();
    let nb = b.unicode_len();
    if na != nb {
        proof {
            assert(a@.len() != b@.len());
        }
        return false;
    }
    let mut i: usize = 0;
    while i < na
        invariant
            i <= na,
            na == a@.len(),
            na == b@.len(),
            forall|k: int| 0 <= k < i ==> a@[k] == b@[k],
        decreases na - i,
    {
        if a.get_char(i) != b.get_char(i) {
            return false;
        }
        i = i + 1;
    }
    proof {
        assert(a@ =~= b@);
    }
    true
}

/// Resolves the backend that `backend` names, so that the caller can
/// check that backend's dependencies before the job runs. `python` and
/// `bun` are the two known backends; any other name is rejected with a
/// message naming it.
pub fn ensure_dependencies(backend: &str) -> (r: Result<MergeBackend, String>)
    ensures
        backend@ == "python"@ ==> r == Ok::<MergeBackend, String>(MergeBackend::Python),
        backend@ == "bun"@ ==> r == Ok::<MergeBackend, String>(MergeBackend::Bun),
        backend@ != "python"@ && backend@ != "bun"@ ==> (r matches Err(e) && e@
            == unknown_backend_err(backend@)),
{
    proof {
        reveal_strlit("python");
        reveal_strlit("bun");
        assert("python"@.len() == 6);
        assert("bun"@.len() == 3);
        assert("python"@ != "bun"@);
    }
    if str_eq(backend, "python") {
        Ok(MergeBackend::Python)
    } else if str_eq(backend, "bun") {
        Ok(MergeBackend::Bun)
    } else {
        let mut msg = String::from_str("Unknown backend: ");
        msg.append(backend);
        msg.append(". Use 'python' or 'bun'");
        proof {
            assert(msg@ =~= unknown_backend_err(backend@));
        }
        Err(msg)
    }
}

} // verus!
