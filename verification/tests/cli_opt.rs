use myrello::cli_opt::ShowCommonOpt;

#[test]
fn test_showcommonopt_default() {
    let mut uut = ShowCommonOpt::default();
    uut.merge(&ShowCommonOpt::default());
    assert!(!uut.hidden);
    assert!(!uut.reference);
    assert!(uut.labels.is_empty());
}

#[test]
fn test_showcommonopt_true_values() {
    let mut uut = ShowCommonOpt::default();
    uut.hidden = true;
    uut.merge(&ShowCommonOpt {
        reference: true,
        ..ShowCommonOpt::default()
    });
    assert!(uut.hidden);
    assert!(uut.reference);
    assert!(uut.labels.is_empty());
}

#[test]
fn test_showcommonopt_labels() {
    let mut label_uut = Vec::new();
    label_uut.push("label1".to_string());
    let mut uut = ShowCommonOpt {
        labels: label_uut,
        ..ShowCommonOpt::default()
    };
    uut.merge(&ShowCommonOpt::default());
    assert!(!uut.hidden);
    assert!(!uut.reference);
    assert_eq!(uut.labels.len(), 1);
    assert_eq!(uut.labels.pop().unwrap(), "label1".to_string());
}
