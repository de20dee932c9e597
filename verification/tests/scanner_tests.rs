use hello::scanner::OutputMetadata;

#[test]
fn two_fenced_blocks_in_order() {
    let text = "intro\n```rust\nlet x = 1;\n```\nmiddle\n```\nbody\n```\ntail\n";
    let mut m = OutputMetadata::new();
    m.generate(text);
    let blocks = m.code_blocks();
    assert_eq!(blocks.len(), 2);
    assert_eq!(blocks[0].lang.as_deref(), Some("rust"));
    assert_eq!(blocks[0].start, 14);
    assert_eq!(blocks[0].end, 24);
    assert_eq!(blocks[1].lang, None);
    assert_eq!(blocks[1].start, 40);
    assert_eq!(blocks[1].end, 44);
}

#[test]
fn unterminated_trailing_fence_is_not_published() {
    let text = "```\na\n```\n```\nb";
    let mut m = OutputMetadata::new();
    m.generate(text);
    let blocks = m.code_blocks();
    assert_eq!(blocks.len(), 1);
    assert_eq!(blocks[0].start, 4);
    assert_eq!(blocks[0].end, 5);
}

#[test]
fn generate_twice_yields_identical_spans() {
    let text = "a\n```py\nprint()\n```\nb\n```\nc\n```\n";
    let mut m1 = OutputMetadata::new();
    m1.generate(text);
    let mut m2 = OutputMetadata::new();
    m2.generate(text);
    m2.generate(text);
    let b1 = m1.code_blocks();
    let b2 = m2.code_blocks();
    assert_eq!(b1.len(), b2.len());
    for (x, y) in b1.iter().zip(b2.iter()) {
        assert_eq!(x.lang, y.lang);
        assert_eq!(x.start, y.start);
        assert_eq!(x.end, y.end);
    }
}

#[test]
fn fence_is_found_after_trimming() {
    // The fence test trims the line; the label is whatever follows the
    // backticks on the trimmed line, kept verbatim.
    let text = "  ```  rust  \nx\n```\n";
    let mut m = OutputMetadata::new();
    m.generate(text);
    let blocks = m.code_blocks();
    assert_eq!(blocks.len(), 1);
    assert_eq!(blocks[0].lang.as_deref(), Some("  rust"));
}

#[test]
fn label_keeps_its_leading_space() {
    let text = "``` x\nbody\n```\n";
    let mut m = OutputMetadata::new();
    m.generate(text);
    let blocks = m.code_blocks();
    assert_eq!(blocks.len(), 1);
    assert_eq!(blocks[0].lang.as_deref(), Some(" x"));
}

#[test]
fn fence_followed_only_by_spaces_has_no_label() {
    let text = "```   \nbody\n```\n";
    let mut m = OutputMetadata::new();
    m.generate(text);
    let blocks = m.code_blocks();
    assert_eq!(blocks.len(), 1);
    assert_eq!(blocks[0].lang, None);
}

#[test]
fn plain_text_has_no_blocks() {
    let mut m = OutputMetadata::new();
    m.generate("just some prose\nwith lines\n");
    assert_eq!(m.code_blocks().len(), 0);
}

#[test]
fn clear_empties_the_block_list() {
    let mut m = OutputMetadata::new();
    m.generate("```\nx\n```\n");
    assert_eq!(m.code_blocks().len(), 1);
    m.clear();
    assert_eq!(m.code_blocks().len(), 0);
}
