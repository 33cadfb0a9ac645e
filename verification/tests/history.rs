use audioviz::history::HistoryWindow;

#[test]
fn window_keeps_the_most_recent_samples() {
    let mut w = HistoryWindow::new(4);
    let xs: Vec<i64> = (1..=10).collect();
    w.extend(&xs);
    assert_eq!(w.len(), 4);
    assert_eq!(w.contents(), &vec![7, 8, 9, 10]);
}

#[test]
fn window_warms_up_below_capacity() {
    let mut w = HistoryWindow::new(4);
    w.extend(&vec![1, 2]);
    assert_eq!(w.len(), 2);
    assert_eq!(w.contents(), &vec![1, 2]);
    w.append(3);
    assert_eq!(w.contents(), &vec![1, 2, 3]);
    w.extend(&vec![4, 5]);
    assert_eq!(w.len(), 4);
    assert_eq!(w.contents(), &vec![2, 3, 4, 5]);
}

#[test]
fn window_length_never_exceeds_capacity() {
    let mut w = HistoryWindow::new(3);
    for s in 0..20 {
        w.append(s);
        assert!(w.len() <= 3);
    }
    assert_eq!(w.contents(), &vec![17, 18, 19]);
}
