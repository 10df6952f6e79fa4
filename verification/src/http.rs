use vstd::prelude::*;

use crate::codec::bytes_eq;
use crate::codec::bytes_to_vec;

verus! {

/// What a request asks the server to do. The transport work — reading the
/// request, streaming events, sending files — is the embedding's; which of
/// those happens, and for which file, is decided here.
#[derive(PartialEq, Eq, Debug)]
pub enum Route {
    /// `GET /simulation`: the connection becomes a long-lived streaming
    /// consumer of the snapshot and removal channels.
    StreamSimulation,
    /// Any other `GET`: serve the named file (`index.html` for `/`).
    ServeFile(Vec<u8>),
    /// `POST /input`: enqueue the request body on the command channel and
    /// acknowledge at once.
    AcceptCommand,
    /// `POST` anywhere else: an empty acknowledgement under a not-found
    /// status.
    PostNotFound,
    /// Any other method: the not-found page.
    NotFound,
}

/// Spec-level image of a [`Route`].
pub enum RouteV {
    StreamSimulation,
    ServeFile(Seq<u8>),
    AcceptCommand,
    PostNotFound,
    NotFound,
}

impl View for Route {
    type V = RouteV;

    open spec fn view(&self) -> RouteV {
        match self {
            Route::StreamSimulation => RouteV::StreamSimulation,
            Route::ServeFile(f) => RouteV::ServeFile(f@),
            Route::AcceptCommand => RouteV::AcceptCommand,
            Route::PostNotFound => RouteV::PostNotFound,
            Route::NotFound => RouteV::NotFound,
        }
    }
}

/// `path` with every leading `/` removed.
pub open spec fn strip_slashes(path: Seq<u8>) -> Seq<u8>
    decreases path.len(),
{
    if path.len() > 0 && path[0] == 47 {
        strip_slashes(path.skip(1))
    } else {
        path
    }
}

/// `GET` routing: `/simulation` opens the stream, `/` serves `index.html`,
/// anything else serves the path with its leading slashes removed.
pub open spec fn route_spec(method: Seq<u8>, path: Seq<u8>) -> RouteV {
    if method == seq![71u8, 69u8, 84u8] {
        if path == seq![47u8, 115u8, 105u8, 109u8, 117u8, 108u8, 97u8, 116u8, 105u8, 111u8, 110u8] {
            RouteV::StreamSimulation
        } else if path == seq![47u8] {
            RouteV::ServeFile(
                seq![105u8, 110u8, 100u8, 101u8, 120u8, 46u8, 104u8, 116u8, 109u8, 108u8],
            )
        } else {
            RouteV::ServeFile(strip_slashes(path))
        }
    } else if method == seq![80u8, 79u8, 83u8, 84u8] {
        if path == seq![47u8, 105u8, 110u8, 112u8, 117u8, 116u8] {
            RouteV::AcceptCommand
        } else {
            RouteV::PostNotFound
        }
    } else {
        RouteV::NotFound
    }
}

/// Removes every leading `/`.
fn strip_slashes_exec(path: &[u8]) -> (out: Vec<u8>)
    ensures
        out@ == strip_slashes(path@),
{
    let mut i: usize = 0;
    while i < path.len() && path[i] == 47
        invariant
            0 <= i <= path@.len(),
            forall|k: int| 0 <= k < i ==> path@[k] == 47,
        decreases path@.len() - i,
    {
        i += 1;
    }
    let out = bytes_to_vec(vstd::slice::slice_subrange(path, i, path.len()));
    proof {
        lemma_strip_slashes_skip(path@, i as int);
        assert(out@ =~= path@.skip(i as int));
    }
    out
}

proof fn lemma_strip_slashes_skip(path: Seq<u8>, j: int)
    requires
        0 <= j <= path.len(),
        forall|k: int| 0 <= k < j ==> path[k] == 47,
        j < path.len() ==> path[j] != 47,
    ensures
        strip_slashes(path) == path.skip(j),
    decreases j,
{
    if j == 0 {
        assert(path.skip(0) =~= path);
    } else {
        assert(path[0] == 47);
        assert(forall|k: int| 0 <= k < j - 1 ==> path.skip(1)[k] == #[trigger] path[k + 1]);
        lemma_strip_slashes_skip(path.skip(1), j - 1);
        assert(path.skip(1).skip(j - 1) =~= path.skip(j));
    }
}

/// Decides what one request line asks for.
pub fn route_request(method: &[u8], path: &[u8]) -> (r: Route)
    ensures
        r@ == route_spec(method@, path@),
{
    let m_get = [71u8, 69u8, 84u8];
    let m_post = [80u8, 79u8, 83u8, 84u8];
    let p_sim = [47u8, 115u8, 105u8, 109u8, 117u8, 108u8, 97u8, 116u8, 105u8, 111u8, 110u8];
    let p_root = [47u8];
    let p_input = [47u8, 105u8, 110u8, 112u8, 117u8, 116u8];
    let f_index = [105u8, 110u8, 100u8, 101u8, 120u8, 46u8, 104u8, 116u8, 109u8, 108u8];
    proof {
        assert(m_get@ =~= seq![71u8, 69u8, 84u8]);
        assert(m_post@ =~= seq![80u8, 79u8, 83u8, 84u8]);
        assert(p_sim@ =~= seq![
            47u8, 115u8, 105u8, 109u8, 117u8, 108u8, 97u8, 116u8, 105u8, 111u8, 110u8,
        ]);
        assert(p_root@ =~= seq![47u8]);
        assert(p_input@ =~= seq![47u8, 105u8, 110u8, 112u8, 117u8, 116u8]);
        assert(f_index@ =~= seq![
            105u8, 110u8, 100u8, 101u8, 120u8, 46u8, 104u8, 116u8, 109u8, 108u8,
        ]);
    }
    if bytes_eq(method, m_get.as_slice()) {
        if bytes_eq(path, p_sim.as_slice()) {
            Route::StreamSimulation
        } else if bytes_eq(path, p_root.as_slice()) {
            Route::ServeFile(bytes_to_vec(f_index.as_slice()))
        } else {
            Route::ServeFile(strip_slashes_exec(path))
        }
    } else if bytes_eq(method, m_post.as_slice()) {
        if bytes_eq(path, p_input.as_slice()) {
            Route::AcceptCommand
        } else {
            Route::PostNotFound
        }
    } else {
        Route::NotFound
    }
}

/// Whether a served file needs the JavaScript MIME header: its name ends in
/// `.js`.
pub fn needs_js_mime(name: &[u8]) -> (r: bool)
    ensures
        r == (name@.len() >= 3 && name@.subrange(name@.len() - 3, name@.len() as int) == seq![
            46u8,
            106u8,
            115u8,
        ]),
{
    if name.len() < 3 {
        return false;
    }
    let n = name.len();
    let r = name[n - 3] == 46 && name[n - 2] == 106 && name[n - 1] == 115;
    proof {
        if r {
            assert(name@.subrange(name@.len() - 3, name@.len() as int) =~= seq![
                46u8,
                106u8,
                115u8,
            ]);
        } else {
            if name@.subrange(name@.len() - 3, name@.len() as int) == seq![46u8, 106u8, 115u8] {
                assert(name@[name@.len() - 3] == 46);
                assert(name@[name@.len() - 2] == 106);
                assert(name@[name@.len() - 1] == 115);
            }
        }
    }
    r
}

} // verus!
