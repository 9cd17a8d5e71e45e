use sabiptrace::bdpt::{alternative_allowed, strategy_allowed, strategy_range};
use sabiptrace::renderer::{integrator_from_name, IntegratorType};
use sabiptrace::scene::light_indices;
use sabiptrace::util::{merge_options, OrInf};

#[test]
fn light_list_collects_emissive_objects() {
    assert_eq!(light_indices(&vec![]), Vec::<usize>::new());
    assert_eq!(light_indices(&vec![false, false]), Vec::<usize>::new());
    assert_eq!(light_indices(&vec![true, false, true, true, false]), vec![0, 2, 3]);
    assert_eq!(light_indices(&vec![false, true]), vec![1]);
}

#[test]
fn integrator_names() {
    assert_eq!(integrator_from_name(b"pt"), Some(IntegratorType::PathTrace));
    assert_eq!(integrator_from_name(b"nee"), Some(IntegratorType::PathTraceWithNee));
    assert_eq!(integrator_from_name(b"bdpt"), Some(IntegratorType::BidirectionalPathTrace));
    assert_eq!(integrator_from_name(b"lt"), Some(IntegratorType::LightTrace));
    assert_eq!(integrator_from_name(b"ptx"), None);
    assert_eq!(integrator_from_name(b""), None);
    assert_eq!(integrator_from_name(b"bdp"), None);
}

#[test]
fn strategy_range_covers_every_split() {
    // Short paths try every split from s = 0 up to s = len - 2.
    assert_eq!(strategy_range(2, 30, 30), (0, 0));
    assert_eq!(strategy_range(5, 30, 30), (0, 3));
    // The eye cap forces a minimum number of light vertices.
    assert_eq!(strategy_range(10, 3, 30), (5, 8));
    // The light cap bounds the maximum.
    assert_eq!(strategy_range(10, 30, 2), (0, 4));
    // Both caps at once; the range stays non-empty.
    let (s_min, s_max) = strategy_range(9, 3, 2);
    assert!(s_min <= s_max);
    assert_eq!((s_min, s_max), (4, 4));
}

#[test]
fn specular_vertices_cannot_connect() {
    let eye = vec![false, true, false];
    let light = vec![false, false];

    // s = 0 needs no connection: only the eye subpath must be long enough.
    assert!(strategy_allowed(&eye, &light, 0, 3));
    assert!(!strategy_allowed(&eye, &light, 0, 6));

    // s >= 1 connects at eye vertex t - 2: specular vertices are skipped.
    assert!(strategy_allowed(&eye, &light, 1, 2));
    assert!(!strategy_allowed(&eye, &light, 1, 3));
    assert!(strategy_allowed(&eye, &light, 1, 4));

    // s >= 2 also connects at light vertex s - 2.
    assert!(strategy_allowed(&eye, &light, 2, 2));
    assert!(strategy_allowed(&eye, &light, 3, 2));
    assert!(!strategy_allowed(&eye, &light, 4, 2));

    let specular_light = vec![true];
    assert!(!strategy_allowed(&eye, &specular_light, 2, 2));
}

#[test]
fn alternative_splits_drop_specular_connections() {
    let eye = vec![false, true, false];
    let light = vec![false, false];

    // An eye subpath short by two or more vertices carries no probability.
    assert!(!alternative_allowed(&eye, &light, 1, 5));
    // Short by exactly one, only the connecting vertex is judged.
    assert!(alternative_allowed(&eye, &light, 1, 4));
    let eye_specular_end = vec![false, false, true];
    assert!(!alternative_allowed(&eye_specular_end, &light, 1, 4));
    assert!(alternative_allowed(&eye_specular_end, &light, 0, 4));
    // Within range, a specular connection point carries no probability.
    assert!(!alternative_allowed(&eye, &light, 1, 3));
    assert!(alternative_allowed(&eye, &light, 1, 2));
    assert!(alternative_allowed(&eye, &light, 0, 3));
    // The light side must reach its connection point, unreflected.
    assert!(alternative_allowed(&eye, &light, 3, 2));
    assert!(!alternative_allowed(&eye, &light, 4, 2));
    assert!(!alternative_allowed(&vec![false, false], &vec![true], 2, 2));
}

#[test]
fn merge_options_combines() {
    let shorter = |a: u32, b: u32| if a < b { a } else { b };
    assert_eq!(merge_options(None, None, shorter), None);
    assert_eq!(merge_options(Some(3), None, shorter), Some(3));
    assert_eq!(merge_options(None, Some(4), shorter), Some(4));
    assert_eq!(merge_options(Some(3), Some(4), shorter), Some(3));
    assert_eq!(merge_options(Some(9), Some(4), shorter), Some(4));
}

#[test]
fn or_inf_limits() {
    let finite: OrInf<usize> = OrInf::Only(7);
    let infinite: OrInf<usize> = OrInf::Inf;
    assert_eq!(finite.unwrap_or(1), 7);
    assert_eq!(infinite.unwrap_or(1), 1);
    match finite.map(|x| x * 2) {
        OrInf::Only(v) => assert_eq!(v, 14),
        OrInf::Inf => panic!("a finite limit stays finite"),
    }
    match infinite.map(|x: usize| x * 2) {
        OrInf::Only(_) => panic!("an unbounded limit stays unbounded"),
        OrInf::Inf => {}
    }
    match finite.as_ref() {
        OrInf::Only(v) => assert_eq!(*v, 7),
        OrInf::Inf => panic!("a finite limit stays finite"),
    }
}
