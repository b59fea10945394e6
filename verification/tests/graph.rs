use dwg::error::{Error, Result};
use dwg::graph::{
    classify_block_name, filter_by_block_space, filter_by_paper_space_block, is_model_space_block_name,
    is_paper_space_block_name, membership_for, walk_with_cycle_detection, BlockSpace, EntityLayoutMembership,
};
use dwg::limits::WalkerLimits;

#[test]
fn walk_returns_single_element_when_chain_terminates_immediately() {
    let limits = WalkerLimits::safe();
    let chain = walk_with_cycle_detection(0xAB, limits, |_| Ok(None)).unwrap();
    assert_eq!(chain, vec![0xAB]);
}

#[test]
fn walk_handles_empty_chain_terminator() {
    let limits = WalkerLimits::safe();
    let chain = walk_with_cycle_detection(0x100, limits, |_| Ok(None)).unwrap();
    assert_eq!(chain.len(), 1);
    assert_eq!(chain[0], 0x100);
}

#[test]
fn walk_caps_at_max_handles() {
    let mut limits = WalkerLimits::safe();
    limits.max_handles = 4;
    let result = walk_with_cycle_detection(1, limits, |h| Ok(Some(h + 1)));
    let err = result.unwrap_err();
    assert!(
        matches!(&err, Error::SectionMap(msg) if msg.contains("max_handles")),
        "expected SectionMap(max_handles), got {err:?}"
    );
}

#[test]
fn walk_detects_cycle_and_returns_partial_chain() {
    let limits = WalkerLimits::safe();
    let chain = walk_with_cycle_detection(1u64, limits, |h| {
        let next = match h {
            1 => 2,
            2 => 3,
            3 => 1,
            _ => unreachable!(),
        };
        Ok(Some(next))
    })
    .unwrap();
    assert_eq!(chain, vec![1, 2, 3]);
}

#[test]
fn walk_propagates_closure_errors() {
    let limits = WalkerLimits::safe();
    let result: Result<Vec<u64>> = walk_with_cycle_detection(1, limits, |_| {
        Err(Error::Unsupported {
            feature: "test stub".into(),
        })
    });
    let err = result.unwrap_err();
    assert!(matches!(&err, Error::Unsupported { feature } if feature == "test stub"));
}

#[test]
fn owner_chain_respects_max_handles() {
    let mut limits = WalkerLimits::safe();
    limits.max_handles = 3;
    let err = walk_with_cycle_detection(10, limits, |h| Ok(Some(h + 1))).unwrap_err();
    assert!(matches!(err, Error::SectionMap(_)));
    limits.max_handles = 4;
    let chain = walk_with_cycle_detection(10, limits, |h| Ok(if h < 13 { Some(h + 1) } else { None })).unwrap();
    assert_eq!(chain, vec![10, 11, 12, 13]);
}

#[test]
fn owner_chain_detects_cycles() {
    let limits = WalkerLimits::safe();
    let chain = walk_with_cycle_detection(7, limits, |h| Ok(Some(if h == 9 { 8 } else { h + 1 }))).unwrap();
    assert_eq!(chain, vec![7, 8, 9]);
}

#[test]
fn model_space_name_matches() {
    assert!(is_model_space_block_name("*Model_Space"));
    assert!(!is_model_space_block_name("*model_space"));
    assert!(!is_model_space_block_name("Model_Space"));
    assert!(!is_model_space_block_name("*Paper_Space"));
    assert!(!is_model_space_block_name(""));
}

#[test]
fn paper_space_name_matches_base_and_suffixed() {
    assert!(is_paper_space_block_name("*Paper_Space"));
    assert!(is_paper_space_block_name("*Paper_Space0"));
    assert!(is_paper_space_block_name("*Paper_Space1"));
    assert!(is_paper_space_block_name("*Paper_Space42"));
    assert!(!is_paper_space_block_name("*Paper_SpaceAlpha"));
    assert!(!is_paper_space_block_name("*Paper_Space_"));
    assert!(!is_paper_space_block_name("*Paper_Space-1"));
    assert!(!is_paper_space_block_name("*paper_space"));
    assert!(!is_paper_space_block_name("*Model_Space"));
    assert!(!is_paper_space_block_name(""));
}

#[test]
fn classify_block_name_covers_all_three_categories() {
    assert_eq!(classify_block_name("*Model_Space"), BlockSpace::Model);
    assert_eq!(classify_block_name("*Paper_Space"), BlockSpace::Paper);
    assert_eq!(classify_block_name("*Paper_Space3"), BlockSpace::Paper);
    assert_eq!(classify_block_name("MyCustomBlock"), BlockSpace::Custom);
    assert_eq!(classify_block_name("DoorFrame_v2"), BlockSpace::Custom);
    assert_eq!(classify_block_name(""), BlockSpace::Custom);
}

#[test]
fn filter_by_paper_space_block_keeps_exact_matches() {
    let items = vec![
        (1u32, "*Model_Space".to_string()),
        (2, "*Paper_Space".to_string()),
        (3, "*Paper_Space".to_string()),
        (4, "*Paper_Space1".to_string()),
        (5, "CustomBlock".to_string()),
    ];
    let got: Vec<_> = filter_by_paper_space_block(items, "*Paper_Space").into_iter().collect();
    assert_eq!(got.len(), 2);
    assert_eq!(got[0].0, 2);
    assert_eq!(got[1].0, 3);
}

#[test]
fn filter_by_block_space_model_and_paper() {
    let items = vec![
        (1u32, "*Model_Space".to_string()),
        (2, "*Paper_Space".to_string()),
        (3, "*Paper_Space2".to_string()),
        (4, "LibraryBlock".to_string()),
    ];
    let model: Vec<_> = filter_by_block_space(items.clone(), BlockSpace::Model).into_iter().collect();
    assert_eq!(model.len(), 1);
    assert_eq!(model[0].0, 1);

    let paper: Vec<_> = filter_by_block_space(items.clone(), BlockSpace::Paper).into_iter().collect();
    assert_eq!(paper.len(), 2);

    let custom: Vec<_> = filter_by_block_space(items, BlockSpace::Custom).into_iter().collect();
    assert_eq!(custom.len(), 1);
    assert_eq!(custom[0].0, 4);
}

#[test]
fn membership_for_maps_block_names_to_variants() {
    assert_eq!(membership_for("*Model_Space"), EntityLayoutMembership::Model);
    assert_eq!(
        membership_for("*Paper_Space"),
        EntityLayoutMembership::Paper("*Paper_Space".to_string())
    );
    assert_eq!(
        membership_for("*Paper_Space7"),
        EntityLayoutMembership::Paper("*Paper_Space7".to_string())
    );
    assert_eq!(
        membership_for("DoorFrame"),
        EntityLayoutMembership::CustomBlock("DoorFrame".to_string())
    );
}

#[test]
fn walk_cap_message_names_the_limit() {
    let mut limits = WalkerLimits::safe();
    limits.max_handles = 4;
    let err = walk_with_cycle_detection(1, limits, |h| Ok(Some(h + 1))).unwrap_err();
    match err {
        Error::SectionMap(msg) => assert_eq!(
            msg,
            "graph walk exceeded WalkerLimits::max_handles (4); malformed or adversarial file"
        ),
        other => panic!("expected SectionMap, got {other:?}"),
    }
}
