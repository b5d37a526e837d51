use turm::layout_text::tres_chunks;

#[test]
fn tres_wrap_keeps_each_key_value_pair_together() {
    let chunks = tres_chunks("billing=128,cpu=128,mem=962.50G,node=4", 19);
    assert_eq!(chunks, ["billing=128,cpu=128", "mem=962.50G,node=4"]);
    assert!(
        chunks
            .iter()
            .all(|line| line.split(',').all(|item| item.contains('=')))
    );
}
