#[test]
fn renamer_report_totals_and_sums() {
    let zero = <rru_common::renamer::Report as Default>::default();
    assert_eq!(zero.total(), 0);

    let a = rru_common::renamer::Report { renamed: 2, untouched: 3, missing: 4 };
    assert_eq!(a.total(), 9);

    let b = rru_common::renamer::Report { renamed: 10, untouched: 20, missing: 30 };
    let sum = a.add(b);
    assert_eq!(sum.renamed, 12);
    assert_eq!(sum.untouched, 23);
    assert_eq!(sum.missing, 34);
    assert_eq!(sum.total(), 69);

    let mut acc = zero;
    acc.add_assign(a);
    acc.add_assign(b);
    assert_eq!(acc, sum);
}

#[test]
fn hashchecker_report_totals_and_sums() {
    let zero = <rru_common::hashchecker::Report as Default>::default();
    assert_eq!(zero.total(), 0);

    let a = rru_common::hashchecker::Report { passed: 1, failed: 0, missing: 5 };
    assert_eq!(a.total(), 6);

    let b = rru_common::hashchecker::Report { passed: 7, failed: 2, missing: 1 };
    let sum = a.add(b);
    assert_eq!(sum.passed, 8);
    assert_eq!(sum.failed, 2);
    assert_eq!(sum.missing, 6);
    assert_eq!(sum.total(), 16);

    let mut acc = zero;
    acc.add_assign(b);
    acc.add_assign(a);
    assert_eq!(acc, sum);
}
