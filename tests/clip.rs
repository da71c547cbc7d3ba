use rustcraft::clip::{clip_corners, clip_face, Corner, Side};

use Corner::{Cut, Vertex};
use Side::{Behind, OnPlane, Visible};

#[test]
fn face_wholly_behind_is_dropped() {
    let sides = vec![Behind, Behind, Behind, Behind];
    assert_eq!(clip_corners(&sides), vec![]);
    assert_eq!(clip_face(&sides), None);
}

#[test]
fn face_wholly_in_front_passes_unchanged() {
    let sides = vec![Visible, Visible, Visible, Visible];
    assert_eq!(clip_face(&sides), Some(vec![Vertex(0), Vertex(1), Vertex(2), Vertex(3)]));
}

#[test]
fn one_hidden_vertex_becomes_two_cuts() {
    let sides = vec![Behind, Visible, Visible, Visible];
    assert_eq!(
        clip_face(&sides),
        Some(vec![Cut(0, 3), Cut(0, 1), Vertex(1), Vertex(2), Vertex(3)])
    );
}

#[test]
fn two_hidden_vertices_become_one_cut_each() {
    let sides = vec![Visible, Behind, Behind, Visible];
    assert_eq!(clip_face(&sides), Some(vec![Vertex(0), Cut(1, 0), Cut(2, 3), Vertex(3)]));
}

#[test]
fn hidden_vertex_between_hidden_ones_is_removed() {
    let sides = vec![Visible, Behind, Behind, Behind];
    assert_eq!(clip_face(&sides), Some(vec![Vertex(0), Cut(1, 0), Cut(3, 0)]));
}

#[test]
fn last_vertex_sees_the_first_through_the_wrap() {
    let sides = vec![Behind, Behind, Visible, Behind];
    assert_eq!(clip_corners(&sides), vec![Cut(1, 2), Vertex(2), Cut(3, 2)]);
    assert_eq!(clip_face(&sides), Some(vec![Cut(1, 2), Vertex(2), Cut(3, 2)]));
}

#[test]
fn vertex_on_the_plane_is_kept_and_cuts_nothing() {
    let sides = vec![Behind, OnPlane, Visible, Behind];
    assert_eq!(clip_face(&sides), Some(vec![Vertex(1), Vertex(2), Cut(3, 2)]));
}

#[test]
fn face_left_with_two_corners_is_dropped() {
    let sides = vec![Behind, OnPlane, OnPlane, Behind];
    assert_eq!(clip_corners(&sides), vec![Vertex(1), Vertex(2)]);
    assert_eq!(clip_face(&sides), None);
}

#[test]
fn empty_face_clips_to_nothing() {
    assert_eq!(clip_face(&vec![]), None);
}
