use codemark::cli::pull::{check_single_tour, imported_tag, remap_parents};
use codemark::error::Error;

#[test]
fn a_pulled_pack_must_hold_one_tour() {
    assert!(check_single_tour(1).is_ok());
    match check_single_tour(0) {
        Err(Error::Operation(m)) => assert_eq!(m, "pack contains no tours"),
        other => panic!("unexpected {other:?}"),
    }
    match check_single_tour(3) {
        Err(Error::Operation(m)) => {
            assert_eq!(m, "pack contains multiple tours; only single-tour packs are supported for pull")
        }
        other => panic!("unexpected {other:?}"),
    }
}

#[test]
fn imported_bookmarks_are_tagged_with_their_source() {
    assert_eq!(imported_tag("https://tours.example/tours/42"), "imported:https://tours.example/tours/42");
}

#[test]
fn comment_threads_survive_import() {
    let old = vec!["c1".to_string(), "c2".to_string(), "c3".to_string()];
    let new = vec!["n1".to_string(), "n2".to_string(), "n3".to_string()];
    let parents = vec![None, Some("c1".to_string()), Some("gone".to_string()), Some("c2".to_string())];
    let r = remap_parents(&old, &new, &parents);
    assert_eq!(r, vec![None, Some("n1".to_string()), None, Some("n2".to_string())]);
}
