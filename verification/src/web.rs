//! What a render request over HTTP asks for: which page, and from where the
//! camera looks.
//!
//! A request carries the camera in its query: `x`, `y`, `z`, `yaw` and
//! `pitch`, each as `name=value`, joined by `&`. Text is handled as bytes;
//! `&` and `=` are single bytes in UTF-8 and occur in no other character.

use vstd::prelude::*;
use vstd::slice::slice_index_get;
use crate::env::RenderEnv;
use crate::scalar::Scalar;

verus! {

/// The byte `&`, which parts the assignments of a query.
pub const AMPERSAND: u8 = 0x26;

/// The byte `=`, which parts a name from its value.
pub const EQUALS: u8 = 0x3d;

/// What the server is started with: the size of the pictures, the number
/// of workers, the port, and the scene.
#[derive(Debug)]
pub struct ServerParams {
    pub width: usize,
    pub height: usize,
    pub thread_count: i32,
    pub port_no: u16,
    pub ren: RenderEnv,
}

/// The pages of the server.
#[derive(Clone, Copy, Debug, PartialEq, Eq, Structural)]
pub enum Route {
    /// The page with the controls.
    Index,
    /// A picture kept on disk.
    Image,
    /// A rendered picture of the scene.
    Render,
    /// No page.
    NotFound,
}

/// The names that a render request may assign.
#[derive(Clone, Copy, Debug, PartialEq, Eq, Structural)]
pub enum QueryKey {
    X,
    Y,
    Z,
    Yaw,
    Pitch,
}

/// From where the camera looks: its position, and yaw and pitch in degrees.
#[derive(Clone, Copy, Debug, PartialEq, Eq, Structural)]
pub struct CameraOverride {
    pub x: Scalar,
    pub y: Scalar,
    pub z: Scalar,
    pub yaw: Scalar,
    pub pitch: Scalar,
}

/// The bytes of `/`.
pub open spec fn root_path() -> Seq<u8> {
    seq![0x2fu8]
}

/// The bytes of `/image`.
pub open spec fn image_path() -> Seq<u8> {
    seq![0x2fu8, 0x69u8, 0x6du8, 0x61u8, 0x67u8, 0x65u8]
}

/// The bytes of `/render`.
pub open spec fn render_path() -> Seq<u8> {
    seq![0x2fu8, 0x72u8, 0x65u8, 0x6eu8, 0x64u8, 0x65u8, 0x72u8]
}

/// The page that a request asks for. The index and the picture on disk are
/// asked for by the whole address; a render by the path, whatever the query.
pub open spec fn route_of(uri: Seq<u8>, path: Seq<u8>) -> Route {
    if uri == root_path() {
        Route::Index
    } else if uri == image_path() {
        Route::Image
    } else if path == render_path() {
        Route::Render
    } else {
        Route::NotFound
    }
}

/// The pieces of `s` between the bytes `sep`: one more than there are
/// separators, empty pieces included.
pub open spec fn split(s: Seq<u8>, sep: u8) -> Seq<Seq<u8>>
    decreases s.len(),
{
    if s.len() == 0 {
        seq![Seq::<u8>::empty()]
    } else {
        let front = split(s.drop_last(), sep);
        if s.last() == sep {
            front.push(Seq::<u8>::empty())
        } else {
            front.update(front.len() - 1, front.last().push(s.last()))
        }
    }
}

/// The pieces put together again, with the byte `sep` between each two.
pub open spec fn join(pieces: Seq<Seq<u8>>, sep: u8) -> Seq<u8>
    decreases pieces.len(),
{
    if pieces.len() == 0 {
        Seq::empty()
    } else if pieces.len() == 1 {
        pieces[0]
    } else {
        join(pieces.drop_last(), sep).push(sep) + pieces.last()
    }
}

/// Splitting loses nothing and leaves no separator behind: there is at
/// least one piece, no piece holds the separator, and the pieces joined by
/// the separator are the text that was split.
pub proof fn lemma_split(s: Seq<u8>, sep: u8)
    ensures
        split(s, sep).len() >= 1,
        forall|i: int, k: int|
            0 <= i < split(s, sep).len() && 0 <= k < split(s, sep)[i].len() ==> #[trigger] split(
                s,
                sep,
            )[i][k] != sep,
        join(split(s, sep), sep) == s,
    decreases s.len(),
{
    if s.len() == 0 {
        assert(join(split(s, sep), sep) =~= s);
    } else {
        let front = split(s.drop_last(), sep);
        lemma_split(s.drop_last(), sep);
        let all = split(s, sep);
        if s.last() == sep {
            assert(all.drop_last() =~= front);
            assert(join(all, sep) =~= join(front, sep).push(sep));
            assert(s.drop_last().push(sep) =~= s);
        } else {
            let grown = front.last().push(s.last());
            assert(all.last() == grown);
            if front.len() == 1 {
                assert(join(front, sep) == front[0]);
                assert(join(all, sep) == grown);
            } else {
                assert(all.drop_last() =~= front.drop_last());
                assert(join(all, sep) =~= join(front, sep).push(s.last()));
            }
            assert(s.drop_last().push(s.last()) =~= s);
            assert forall|i: int, k: int| 0 <= i < all.len() && 0 <= k < all[i].len() implies
                #[trigger] all[i][k] != sep by {
                if i < all.len() - 1 {
                    assert(all[i] == front[i]);
                    assert(front[i][k] != sep);
                } else if k < front.last().len() {
                    assert(front[front.len() - 1][k] != sep);
                }
            }
        }
    }
}

/// The key that a name stands for, if it is one of the five.
pub open spec fn key_of(name: Seq<u8>) -> Option<QueryKey> {
    if name == seq![0x78u8] {
        Some(QueryKey::X)
    } else if name == seq![0x79u8] {
        Some(QueryKey::Y)
    } else if name == seq![0x7au8] {
        Some(QueryKey::Z)
    } else if name == seq![0x79u8, 0x61u8, 0x77u8] {
        Some(QueryKey::Yaw)
    } else if name == seq![0x70u8, 0x69u8, 0x74u8, 0x63u8, 0x68u8] {
        Some(QueryKey::Pitch)
    } else {
        None
    }
}

/// What a piece of a query assigns: it must be a known name, one `=`, and a
/// value. Any other piece assigns nothing.
pub open spec fn assignment(piece: Seq<u8>) -> Option<(QueryKey, Seq<u8>)> {
    let parts = split(piece, EQUALS);
    if parts.len() == 2 {
        match key_of(parts[0]) {
            Some(key) => Some((key, parts[1])),
            None => None,
        }
    } else {
        None
    }
}

/// The assignments of the pieces, in order.
pub open spec fn assignments(pieces: Seq<Seq<u8>>) -> Seq<(QueryKey, Seq<u8>)>
    decreases pieces.len(),
{
    if pieces.len() == 0 {
        Seq::empty()
    } else {
        let front = assignments(pieces.drop_last());
        match assignment(pieces.last()) {
            Some(a) => front.push(a),
            None => front,
        }
    }
}

/// The assignments of a query.
pub open spec fn query_assignments(query: Seq<u8>) -> Seq<(QueryKey, Seq<u8>)> {
    assignments(split(query, AMPERSAND))
}

/// The views of the pieces.
pub open spec fn piece_views(pieces: Seq<Vec<u8>>) -> Seq<Seq<u8>> {
    Seq::new(pieces.len(), |i: int| pieces[i]@)
}

/// The views of the assignments.
pub open spec fn assignment_views(found: Seq<(QueryKey, Vec<u8>)>) -> Seq<(QueryKey, Seq<u8>)> {
    Seq::new(found.len(), |i: int| (found[i].0, found[i].1@))
}

impl CameraOverride {
    /// The camera at the origin, looking straight ahead.
    pub open spec fn origin() -> CameraOverride {
        CameraOverride {
            x: Scalar::zero(),
            y: Scalar::zero(),
            z: Scalar::zero(),
            yaw: Scalar::zero(),
            pitch: Scalar::zero(),
        }
    }

    /// The camera with `key` set to `value`.
    pub open spec fn with(self, key: QueryKey, value: Scalar) -> CameraOverride {
        match key {
            QueryKey::X => CameraOverride { x: value, ..self },
            QueryKey::Y => CameraOverride { y: value, ..self },
            QueryKey::Z => CameraOverride { z: value, ..self },
            QueryKey::Yaw => CameraOverride { yaw: value, ..self },
            QueryKey::Pitch => CameraOverride { pitch: value, ..self },
        }
    }

    /// The camera after the assignments, taken in order. A value that is
    /// no number leaves the camera as it is.
    pub open spec fn after(values: Seq<(QueryKey, Option<Scalar>)>) -> CameraOverride
        decreases values.len(),
    {
        if values.len() == 0 {
            Self::origin()
        } else {
            let before = Self::after(values.drop_last());
            match values.last().1 {
                Some(v) => before.with(values.last().0, v),
                None => before,
            }
        }
    }

    /// Sets one coordinate of the camera.
    pub fn set(self, key: QueryKey, value: Scalar) -> (c: CameraOverride)
        ensures
            c == self.with(key, value),
    {
        let mut c = self;
        match key {
            QueryKey::X => {
                c.x = value;
            },
            QueryKey::Y => {
                c.y = value;
            },
            QueryKey::Z => {
                c.z = value;
            },
            QueryKey::Yaw => {
                c.yaw = value;
            },
            QueryKey::Pitch => {
                c.pitch = value;
            },
        }
        c
    }

    /// The camera that a request asks for. `values` are the assignments of
    /// its query in order, each with its value read as a number, or `None`
    /// where the value is no number. What is not assigned is zero; of two
    /// assignments to one name the later counts.
    pub fn from_values(values: &Vec<(QueryKey, Option<Scalar>)>) -> (c: CameraOverride)
        ensures
            c == Self::after(values@),
    {
        let mut c = CameraOverride {
            x: Scalar::zero(),
            y: Scalar::zero(),
            z: Scalar::zero(),
            yaw: Scalar::zero(),
            pitch: Scalar::zero(),
        };
        let mut i: usize = 0;
        while i < values.len()
            invariant
                i <= values@.len(),
                c == Self::after(values@.take(i as int)),
            decreases values@.len() - i,
        {
            proof {
                assert(values@.take(i + 1).drop_last() =~= values@.take(i as int));
                assert(values@.take(i + 1).last() == values@[i as int]);
            }
            let entry: (QueryKey, Option<Scalar>) = values[i];
            match entry.1 {
                Some(v) => {
                    c = c.set(entry.0, v);
                },
                None => {},
            }
            i = i + 1;
        }
        proof {
            assert(values@.take(values@.len() as int) =~= values@);
        }
        c
    }
}

/// Tells whether the bytes of `text` are those of `word`.
fn same_bytes(text: &[u8], word: &[u8]) -> (r: bool)
    ensures
        r == (text@ == word@),
{
    if text.len() != word.len() {
        return false;
    }
    let mut i: usize = 0;
    while i < text.len()
        invariant
            i <= text@.len(),
            text@.len() == word@.len(),
            forall|j: int| 0 <= j < i ==> text@[j] == word@[j],
        decreases text@.len() - i,
    {
        if *slice_index_get(text, i) != *slice_index_get(word, i) {
            return false;
        }
        i = i + 1;
    }
    assert(text@ =~= word@);
    true
}

/// Finds the page that a request asks for, from its whole address and from
/// the path alone.
pub fn route(uri: &[u8], path: &[u8]) -> (r: Route)
    ensures
        r == route_of(uri@, path@),
{
    let root: [u8; 1] = [0x2f];
    let image: [u8; 6] = [0x2f, 0x69, 0x6d, 0x61, 0x67, 0x65];
    let render: [u8; 7] = [0x2f, 0x72, 0x65, 0x6e, 0x64, 0x65, 0x72];
    proof {
        assert(root@ =~= root_path());
        assert(image@ =~= image_path());
        assert(render@ =~= render_path());
    }
    if same_bytes(uri, root.as_slice()) {
        Route::Index
    } else if same_bytes(uri, image.as_slice()) {
        Route::Image
    } else if same_bytes(path, render.as_slice()) {
        Route::Render
    } else {
        Route::NotFound
    }
}

/// Finds the key that a name stands for.
pub fn key(name: &[u8]) -> (r: Option<QueryKey>)
    ensures
        r == key_of(name@),
{
    let x: [u8; 1] = [0x78];
    let y: [u8; 1] = [0x79];
    let z: [u8; 1] = [0x7a];
    let yaw: [u8; 3] = [0x79, 0x61, 0x77];
    let pitch: [u8; 5] = [0x70, 0x69, 0x74, 0x63, 0x68];
    proof {
        assert(x@ =~= seq![0x78u8]);
        assert(y@ =~= seq![0x79u8]);
        assert(z@ =~= seq![0x7au8]);
        assert(yaw@ =~= seq![0x79u8, 0x61u8, 0x77u8]);
        assert(pitch@ =~= seq![0x70u8, 0x69u8, 0x74u8, 0x63u8, 0x68u8]);
    }
    if same_bytes(name, x.as_slice()) {
        Some(QueryKey::X)
    } else if same_bytes(name, y.as_slice()) {
        Some(QueryKey::Y)
    } else if same_bytes(name, z.as_slice()) {
        Some(QueryKey::Z)
    } else if same_bytes(name, yaw.as_slice()) {
        Some(QueryKey::Yaw)
    } else if same_bytes(name, pitch.as_slice()) {
        Some(QueryKey::Pitch)
    } else {
        None
    }
}

/// Cuts `s` at every byte `sep`.
pub fn split_bytes(s: &[u8], sep: u8) -> (pieces: Vec<Vec<u8>>)
    ensures
        piece_views(pieces@) == split(s@, sep),
        pieces@.len() >= 1,
{
    let mut pieces: Vec<Vec<u8>> = Vec::new();
    let mut current: Vec<u8> = Vec::new();
    let mut i: usize = 0;
    assert(s@.take(0) =~= Seq::<u8>::empty());
    assert(piece_views(pieces@).push(current@) =~= split(s@.take(0), sep));
    while i < s.len()
        invariant
            i <= s@.len(),
            piece_views(pieces@).push(current@) == split(s@.take(i as int), sep),
        decreases s@.len() - i,
    {
        let b: u8 = *slice_index_get(s, i);
        let ghost before = piece_views(pieces@).push(current@);
        proof {
            assert(s@.take(i + 1).drop_last() =~= s@.take(i as int));
            assert(s@.take(i + 1).last() == b);
        }
        if b == sep {
            pieces.push(current);
            current = Vec::new();
            assert(piece_views(pieces@).push(current@) =~= before.push(Seq::<u8>::empty()));
        } else {
            current.push(b);
            assert(piece_views(pieces@).push(current@) =~= before.update(
                before.len() - 1,
                before.last().push(b),
            ));
        }
        i = i + 1;
    }
    proof {
        assert(s@.take(s@.len() as int) =~= s@);
    }
    let ghost before = piece_views(pieces@).push(current@);
    pieces.push(current);
    assert(piece_views(pieces@) =~= before);
    pieces
}

/// Reads the assignments of a query: for each piece between `&` that is a
/// known name, one `=` and a value, the key and the bytes of the value, in
/// the order of the query.
pub fn parse_query(query: &[u8]) -> (found: Vec<(QueryKey, Vec<u8>)>)
    ensures
        assignment_views(found@) == query_assignments(query@),
{
    let pieces: Vec<Vec<u8>> = split_bytes(query, AMPERSAND);
    let ghost views = piece_views(pieces@);
    let mut found: Vec<(QueryKey, Vec<u8>)> = Vec::new();
    let mut i: usize = 0;
    assert(assignment_views(found@) =~= assignments(views.take(0)));
    while i < pieces.len()
        invariant
            i <= pieces@.len(),
            views == piece_views(pieces@),
            assignment_views(found@) == assignments(views.take(i as int)),
        decreases pieces@.len() - i,
    {
        proof {
            assert(views.take(i + 1).drop_last() =~= views.take(i as int));
            assert(views.take(i + 1).last() == pieces@[i as int]@);
        }
        let ghost before = assignment_views(found@);
        let parts: Vec<Vec<u8>> = split_bytes(pieces[i].as_slice(), EQUALS);
        if parts.len() == 2 {
            assert(piece_views(parts@)[0] == parts@[0]@);
            assert(piece_views(parts@)[1] == parts@[1]@);
            match key(parts[0].as_slice()) {
                Some(k) => {
                    let value: Vec<u8> = parts[1].clone();
                    found.push((k, value));
                    assert(assignment_views(found@) =~= before.push((k, parts@[1]@)));
                },
                None => {},
            }
        }
        i = i + 1;
    }
    proof {
        assert(views.take(views.len() as int) =~= views);
    }
    found
}

} // verus!
