use crate::error::ClientError;
use crate::text::{
    chars_of, ends_with, lemma_occurrences_unchanged, occurrences, occurs_at, split, split_chars,
    string_of, texts,
};
use vstd::prelude::*;
use vstd::string::StringExecFns;

verus! {

/// The marker that the server expects before every segment of a job path.
pub open spec fn marker() -> Seq<char> {
    seq!['j', 'o', 'b', '/']
}

/// The segment that stands for "this folder".
pub open spec fn dot() -> Seq<char> {
    seq!['.']
}

/// The segment that stands for "the folder above".
pub open spec fn dot_dot() -> Seq<char> {
    seq!['.', '.']
}

/// Whether a piece between two separators is a segment of the path. Empty
/// pieces are none, and a `.` is one only where it opens the path.
pub open spec fn kept(piece: Seq<char>, first: bool) -> bool {
    piece.len() > 0 && (piece == dot() ==> first)
}

/// The pieces that are segments, in their order.
pub open spec fn kept_pieces(pieces: Seq<Seq<char>>) -> Seq<Seq<char>>
    decreases pieces.len(),
{
    if pieces.len() == 0 {
        Seq::<Seq<char>>::empty()
    } else {
        let before = kept_pieces(pieces.drop_last());
        if kept(pieces.last(), pieces.len() == 1) {
            before.push(pieces.last())
        } else {
            before
        }
    }
}

/// The segments of a slash-separated job path.
pub open spec fn path_segments(path: Seq<char>) -> Seq<Seq<char>> {
    kept_pieces(split(path, '/'))
}

/// Whether some segment is a name, that is neither `.` nor `..`.
pub open spec fn names_something(segments: Seq<Seq<char>>) -> bool {
    exists|i: int| 0 <= i < segments.len() && is_name(#[trigger] segments[i])
}

/// Whether a segment is a name, that is neither `.` nor `..`.
pub open spec fn is_name(segment: Seq<char>) -> bool {
    segment != dot() && segment != dot_dot()
}

/// Whether a job path names a job or folder: it has a segment that is a name.
pub open spec fn valid_path(path: Seq<char>) -> bool {
    names_something(path_segments(path))
}

/// What the server expects in an address for the job with these segments:
/// for each segment the marker, the segment and a slash.
pub open spec fn job_prefix(segments: Seq<Seq<char>>) -> Seq<char>
    decreases segments.len(),
{
    if segments.len() == 0 {
        Seq::<char>::empty()
    } else {
        job_prefix(segments.drop_last()) + marker() + segments.last() + seq!['/']
    }
}

/// Whether every segment is non-empty and free of separators.
pub open spec fn segments_wf(segments: Seq<Seq<char>>) -> bool {
    forall|i: int|
        0 <= i < segments.len() ==> (#[trigger] segments[i]).len() > 0 && !segments[i].contains('/')
}

/// The place of a job or folder in the server's namespace.
#[derive(Debug)]
pub struct ResourcePath {
    pub segments: Vec<String>,
}

impl View for ResourcePath {
    type V = Seq<Seq<char>>;

    open spec fn view(&self) -> Seq<Seq<char>> {
        texts(self.segments@)
    }
}

impl ResourcePath {
    /// Whether every segment is non-empty and free of separators.
    pub open spec fn wf(&self) -> bool {
        segments_wf(self@)
    }

    /// The path as the server expects it in an address.
    pub fn render(&self) -> (s: String)
        ensures
            s@ == job_prefix(self@),
    {
        let mut out = String::new();
        let mut i: usize = 0;
        while i < self.segments.len()
            invariant
                i <= self.segments.len(),
                out@ == job_prefix(self@.take(i as int)),
            decreases self.segments.len() - i,
        {
            proof {
                reveal_strlit("job/");
                reveal_strlit("/");
                let next = self@.take(i as int + 1);
                assert(next.drop_last() == self@.take(i as int));
                assert(next.last() == self.segments@[i as int]@);
                assert("job/"@ == marker());
                assert("/"@ == seq!['/']);
            }
            out.append("job/");
            out.append(self.segments[i].as_str());
            out.append("/");
            i += 1;
        }
        proof {
            assert(self@.take(self.segments.len() as int) == self@);
        }
        out
    }
}

/// Splits pieces kept up to `n` from those kept up to `n + 1`.
proof fn lemma_kept_step(pieces: Seq<Seq<char>>, n: int)
    requires
        0 <= n < pieces.len(),
    ensures
        kept_pieces(pieces.take(n + 1)) == if kept(pieces[n], n == 0) {
            kept_pieces(pieces.take(n)).push(pieces[n])
        } else {
            kept_pieces(pieces.take(n))
        },
{
    let next = pieces.take(n + 1);
    assert(next.drop_last() == pieces.take(n));
    assert(next.last() == pieces[n]);
}

/// Reads a job path: the segments between the slashes.
///
/// Fails with `InvalidPath` where no segment is a name, as in the empty path
/// and in one made of `.` and `..` alone.
pub fn to_job_segments(path: &str) -> (res: Result<ResourcePath, ClientError>)
    ensures
        match res {
            Ok(p) => valid_path(path@) && p@ == path_segments(path@) && p.wf(),
            Err(e) => e == ClientError::InvalidPath && !valid_path(path@),
        },
{
    let chars = chars_of(path);
    let pieces = split_chars(&chars, '/');
    let ghost all = split(path@, '/');
    proof {
        crate::text::lemma_split_pieces(path@, '/');
    }
    let mut segments: Vec<String> = Vec::new();
    let mut named = false;
    let mut i: usize = 0;
    while i < pieces.len()
        invariant
            i <= pieces.len(),
            pieces@.map_values(|p: Vec<char>| p@) == all,
            forall|a: int, b: int| 0 <= a < all.len() && 0 <= b < all[a].len() ==> all[a][b] != '/',
            texts(segments@) == kept_pieces(all.take(i as int)),
            named == names_something(texts(segments@)),
            segments_wf(texts(segments@)),
        decreases pieces.len() - i,
    {
        let piece = &pieces[i];
        let ghost before = texts(segments@);
        proof {
            assert(all[i as int] == piece@);
            lemma_kept_step(all, i as int);
        }
        let is_dot = piece.len() == 1 && piece[0] == '.';
        let is_dot_dot = piece.len() == 2 && piece[0] == '.' && piece[1] == '.';
        proof {
            assert(is_dot == (piece@ == dot())) by {
                if is_dot {
                    assert(piece@ =~= dot());
                }
            }
            assert(is_dot_dot == (piece@ == dot_dot())) by {
                if is_dot_dot {
                    assert(piece@ =~= dot_dot());
                }
            }
        }
        if piece.len() > 0 && (!is_dot || i == 0) {
            let segment = string_of(piece);
            segments.push(segment);
            proof {
                let after = texts(segments@);
                assert(after == before.push(piece@));
                assert(!piece@.contains('/'));
                assert(segments_wf(after)) by {
                    assert forall|k: int| 0 <= k < after.len() implies (#[trigger] after[k]).len()
                        > 0 && !after[k].contains('/') by {
                        if k < before.len() {
                            assert(after[k] == before[k]);
                        }
                    }
                }
                if names_something(before) {
                    let w = choose|k: int| 0 <= k < before.len() && is_name(#[trigger] before[k]);
                    assert(after[w] == before[w]);
                }
                if is_name(piece@) {
                    assert(after[after.len() - 1] == piece@);
                }
                if names_something(after) {
                    let w = choose|k: int| 0 <= k < after.len() && is_name(#[trigger] after[k]);
                    if w < before.len() {
                        assert(after[w] == before[w]);
                    }
                }
            }
            if !is_dot && !is_dot_dot {
                named = true;
            }
        }
        i += 1;
    }
    proof {
        assert(all.take(pieces.len() as int) == all);
    }
    if named {
        Ok(ResourcePath { segments })
    } else {
        Err(ClientError::InvalidPath)
    }
}


/// The letters of the marker, without its slash.
pub open spec fn marker_word() -> Seq<char> {
    seq!['j', 'o', 'b']
}

/// Where the part for segment `k` begins in the rendered path.
pub open spec fn segment_start(segments: Seq<Seq<char>>, k: int) -> int {
    job_prefix(segments.take(k)).len() as int
}

/// The rendered path of the first `k` segments opens the rendered path of all.
proof fn lemma_prefix_of_prefix(segments: Seq<Seq<char>>, k: int)
    requires
        0 <= k <= segments.len(),
    ensures
        job_prefix(segments.take(k)).len() <= job_prefix(segments).len(),
        job_prefix(segments).subrange(0, job_prefix(segments.take(k)).len() as int) == job_prefix(
            segments.take(k),
        ),
    decreases segments.len(),
{
    if k == segments.len() {
        assert(segments.take(k) == segments);
        assert(job_prefix(segments).subrange(0, job_prefix(segments).len() as int) == job_prefix(
            segments,
        ));
    } else {
        assert(segments.drop_last().take(k) == segments.take(k));
        lemma_prefix_of_prefix(segments.drop_last(), k);
        let head = job_prefix(segments.drop_last());
        let first = job_prefix(segments.take(k));
        assert(job_prefix(segments).subrange(0, first.len() as int) == head.subrange(
            0,
            first.len() as int,
        ));
    }
}

/// Rendering writes one marker per segment and no other: where no segment
/// ends in the marker's letters, the marker stands in the rendered path in
/// exactly as many places as the path has segments.
pub proof fn lemma_render_marker_count(segments: Seq<Seq<char>>)
    requires
        segments_wf(segments),
        forall|i: int| 0 <= i < segments.len() ==> !ends_with(#[trigger] segments[i], marker_word()),
    ensures
        occurrences(job_prefix(segments), marker()) == segments.len(),
    decreases segments.len(),
{
    if segments.len() > 0 {
        let before = segments.drop_last();
        let seg = segments.last();
        assert(segments_wf(before)) by {
            assert forall|i: int| 0 <= i < before.len() implies (#[trigger] before[i]).len() > 0
                && !before[i].contains('/') by {
                assert(before[i] == segments[i]);
            }
        }
        assert forall|i: int| 0 <= i < before.len() implies !ends_with(
            #[trigger] before[i],
            marker_word(),
        ) by {
            assert(before[i] == segments[i]);
        }
        lemma_render_marker_count(before);
        let head = job_prefix(before);
        // the three letters add nothing
        assert(!marker_word().contains('/')) by {
            if marker_word().contains('/') {
                let i = choose|i: int| 0 <= i < marker_word().len() && marker_word()[i] == '/';
            }
        }
        assert(marker().last() == '/');
        lemma_occurrences_unchanged(head, marker_word(), marker());
        // the slash completes one marker
        let with_marker = head + marker();
        assert(with_marker == (head + marker_word()).push('/'));
        assert(with_marker.drop_last() == head + marker_word());
        assert(ends_with(with_marker, marker())) by {
            assert(with_marker.subrange(with_marker.len() - 4, with_marker.len() as int)
                == marker());
        }
        assert(occurrences(with_marker, marker()) == segments.len());
        // the segment adds nothing
        assert(segments[segments.len() - 1] == seg);
        lemma_occurrences_unchanged(with_marker, seg, marker());
        // nor does the closing slash
        let body = with_marker + seg;
        let all = job_prefix(segments);
        assert(all == body.push('/'));
        assert(all.drop_last() == body);
        if ends_with(all, marker()) {
            let at = all.len() - 4;
            let found = all.subrange(at, at + 4);
            assert(found[0] == 'j' && found[1] == 'o' && found[2] == 'b');
            if seg.len() >= 3 {
                let tail = seg.subrange(seg.len() - 3, seg.len() as int);
                assert(tail[0] == found[0]);
                assert(tail[1] == found[1]);
                assert(tail[2] == found[2]);
                assert(tail == marker_word());
                assert(ends_with(seg, marker_word()));
            } else if seg.len() == 2 {
                assert(found[0] == marker()[3]);
            } else {
                assert(found[0] == marker()[2]);
            }
        }
    }
}

/// The segments of any path are non-empty and free of separators.
pub proof fn lemma_path_segments_wf(path: Seq<char>)
    ensures
        segments_wf(path_segments(path)),
{
    crate::text::lemma_split_pieces(path, '/');
    lemma_kept_pieces_wf(split(path, '/'));
}

/// Pieces without separators leave segments that are non-empty and without
/// separators.
proof fn lemma_kept_pieces_wf(pieces: Seq<Seq<char>>)
    requires
        forall|i: int, j: int|
            0 <= i < pieces.len() && 0 <= j < pieces[i].len() ==> pieces[i][j] != '/',
    ensures
        segments_wf(kept_pieces(pieces)),
    decreases pieces.len(),
{
    if pieces.len() > 0 {
        let before = pieces.drop_last();
        assert forall|i: int, j: int| 0 <= i < before.len() && 0 <= j < before[i].len() implies before[i][j]
            != '/' by {
            assert(before[i] == pieces[i]);
        }
        lemma_kept_pieces_wf(before);
        let kept_before = kept_pieces(before);
        let all = kept_pieces(pieces);
        assert forall|k: int| 0 <= k < all.len() implies (#[trigger] all[k]).len() > 0
            && !all[k].contains('/') by {
            if k < kept_before.len() {
                assert(all[k] == kept_before[k]);
            } else {
                assert(all[k] == pieces.last());
                assert(pieces.last() == pieces[pieces.len() - 1]);
            }
        }
    }
}

/// A rendered job path holds one marker for each segment of the path, and
/// no other, where no segment ends in the marker's letters.
pub proof fn lemma_path_marker_count(path: Seq<char>)
    requires
        forall|i: int|
            0 <= i < path_segments(path).len() ==> !ends_with(
                #[trigger] path_segments(path)[i],
                marker_word(),
            ),
    ensures
        occurrences(job_prefix(path_segments(path)), marker()) == path_segments(path).len(),
{
    lemma_path_segments_wf(path);
    lemma_render_marker_count(path_segments(path));
}

/// Rendering keeps the order of the segments: the part for segment `k` is
/// the marker, the segment and a slash, and the parts follow one another.
pub proof fn lemma_render_segment_order(segments: Seq<Seq<char>>, k: int)
    requires
        0 <= k < segments.len(),
    ensures
        occurs_at(job_prefix(segments), marker(), segment_start(segments, k)),
        occurs_at(job_prefix(segments), segments[k], segment_start(segments, k) + 4),
        occurs_at(
            job_prefix(segments),
            seq!['/'],
            segment_start(segments, k) + 4 + segments[k].len(),
        ),
        segment_start(segments, k + 1) == segment_start(segments, k) + 4 + segments[k].len() + 1,
        segment_start(segments, 0) == 0,
        segment_start(segments, segments.len() as int) == job_prefix(segments).len(),
{
    let upto = segments.take(k + 1);
    assert(upto.drop_last() == segments.take(k));
    assert(upto.last() == segments[k]);
    let head = job_prefix(segments.take(k));
    let part = job_prefix(upto);
    assert(part == head + marker() + segments[k] + seq!['/']);
    lemma_prefix_of_prefix(segments, k + 1);
    let all = job_prefix(segments);
    let start = head.len() as int;
    assert(all.subrange(start, start + 4) == marker()) by {
        assert(all.subrange(start, start + 4) == all.subrange(0, part.len() as int).subrange(
            start,
            start + 4,
        ));
        assert(part.subrange(start, start + 4) == marker());
    }
    assert(all.subrange(start + 4, start + 4 + segments[k].len()) == segments[k]) by {
        assert(all.subrange(start + 4, start + 4 + segments[k].len()) == all.subrange(
            0,
            part.len() as int,
        ).subrange(start + 4, start + 4 + segments[k].len()));
        assert(part.subrange(start + 4, start + 4 + segments[k].len()) == segments[k]);
    }
    let slash = start + 4 + segments[k].len();
    assert(all.subrange(slash, slash + 1) == seq!['/']) by {
        assert(all.subrange(slash, slash + 1) == all.subrange(0, part.len() as int).subrange(
            slash,
            slash + 1,
        ));
        assert(part.subrange(slash, slash + 1) == seq!['/']);
    }
    assert(segments.take(0) == Seq::<Seq<char>>::empty());
    assert(segments.take(segments.len() as int) == segments);
}

} // verus!
