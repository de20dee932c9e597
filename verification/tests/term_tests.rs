use hello::request::RequestTaskMessage;
use hello::term::{DrawCmd, KeyInput, PollingMode, TermTask, TermTaskMessage};

fn task(tw: u16, th: u16) -> TermTask {
    let mut t = TermTask::new();
    t.tsize = (tw, th);
    t
}

#[test]
fn typed_character_is_echoed_and_buffered() {
    let mut t = task(80, 24);
    let out = t.handle_key(KeyInput::Char('a'));
    assert_eq!(out.cmds, vec![DrawCmd::Print('a')]);
    assert!(out.message.is_none());
    assert!(!out.exit);
    assert_eq!(t.userin.buf, "a");
}

#[test]
fn enter_on_empty_buffer_ends_the_session() {
    let mut t = task(80, 24);
    // The session starts with a transfer in flight; only once it has
    // completed does an empty Enter end the session.
    t.polling_mode = PollingMode::AwaitUserin;
    let out = t.handle_key(KeyInput::Enter { shift: false });
    assert!(matches!(out.message, Some(TermTaskMessage::Die)));
    assert!(out.exit);
}

#[test]
fn enter_on_empty_buffer_is_ignored_while_streaming() {
    let mut t = task(80, 24);
    assert!(matches!(t.polling_mode, PollingMode::AwaitRequestUpdate));
    let out = t.handle_key(KeyInput::Enter { shift: false });
    assert!(out.message.is_none());
    assert!(!out.exit);
    assert!(out.cmds.is_empty());
}

#[test]
fn wrap_anchor_restarts_at_the_character_width() {
    let mut t = task(2, 24);
    t.llmout_buf = String::from("abc");
    // At width 2 the third character wraps; the anchor replay restarts the
    // column at that character's own width, as the width walk does.
    assert_eq!(t.output_idx_to_term_pos((2, 24), 3), (1, 1));
    assert_eq!(t.output_idx_to_term_pos((2, 24), 2), (0, 2));
}

#[test]
fn interrupt_always_ends_the_session() {
    let mut t = task(80, 24);
    t.handle_key(KeyInput::Char('x'));
    let out = t.handle_key(KeyInput::CtrlC);
    assert!(matches!(out.message, Some(TermTaskMessage::Die)));
    assert!(out.exit);
}

#[test]
fn shift_enter_inserts_newline_without_submitting() {
    let mut t = task(80, 24);
    t.handle_key(KeyInput::Char('a'));
    let out = t.handle_key(KeyInput::Enter { shift: true });
    assert_eq!(out.cmds, vec![DrawCmd::Print('\n'), DrawCmd::MoveToColumn(0)]);
    assert!(out.message.is_none());
    assert_eq!(t.userin.buf, "a\n");
}

#[test]
fn submit_cancels_clears_and_reports_both_texts() {
    let mut t = task(80, 24);
    // Stream an answer in, then finalize it so blocks exist.
    let (_, _) = t.handle_message(RequestTaskMessage::ReceivedPiece(String::from(
        "```\ncode\n```\n",
    )));
    let (_, next) = t.handle_message(RequestTaskMessage::Done);
    assert!(next.is_some());
    assert_eq!(t.metadata.code_blocks().len(), 1);
    // Type a prompt and submit it.
    t.handle_key(KeyInput::Char('h'));
    t.handle_key(KeyInput::Char('i'));
    let out = t.handle_key(KeyInput::Enter { shift: false });
    assert!(!out.exit);
    match out.message {
        Some(TermTaskMessage::ReceivedUserPrompt { user_prompt, llm_answer_prev }) => {
            assert_eq!(user_prompt, "hi");
            assert_eq!(llm_answer_prev.as_deref(), Some("```\ncode\n```\n"));
        }
        _ => panic!("expected a submitted prompt"),
    }
    // Both regions and the block list are cleared.
    assert_eq!(t.llmout_buf, "");
    assert_eq!(t.userin.buf, "");
    assert_eq!(t.metadata.code_blocks().len(), 0);
}

#[test]
fn received_piece_is_appended_and_drawn() {
    let mut t = task(10, 24);
    let (cmds, next) = t.handle_message(RequestTaskMessage::ReceivedPiece(String::from("hi")));
    assert!(next.is_none());
    assert_eq!(t.llmout_buf, "hi");
    // The input region is cleared first, then the piece is written.
    assert_eq!(cmds[0], DrawCmd::SavePosition);
    assert!(cmds.contains(&DrawCmd::Print('h')));
    assert!(cmds.contains(&DrawCmd::Print('i')));
}

#[test]
fn selection_cycles_with_wraparound() {
    let mut t = task(80, 24);
    let _ = t.handle_message(RequestTaskMessage::ReceivedPiece(String::from(
        "```\na\n```\ntext\n```\nb\n```\n",
    )));
    let _ = t.handle_message(RequestTaskMessage::Done);
    assert_eq!(t.metadata.code_blocks().len(), 2);
    assert_eq!(t.selected_code_block, 0);
    t.handle_key(KeyInput::Down);
    assert_eq!(t.selected_code_block, 1);
    t.handle_key(KeyInput::Down);
    assert_eq!(t.selected_code_block, 0);
    t.handle_key(KeyInput::Up);
    assert_eq!(t.selected_code_block, 1);
    t.handle_key(KeyInput::Up);
    assert_eq!(t.selected_code_block, 0);
}

#[test]
fn backspace_removes_and_redraws() {
    let mut t = task(80, 24);
    t.handle_key(KeyInput::Char('a'));
    t.handle_key(KeyInput::Char('b'));
    let out = t.handle_key(KeyInput::Backspace);
    assert_eq!(t.userin.buf, "a");
    // The redraw clears the region and reprints the prompt line.
    assert_eq!(out.cmds[0], DrawCmd::SavePosition);
    assert!(out.cmds.contains(&DrawCmd::ClearCurrentLine));
    assert!(out.cmds.ends_with(&[DrawCmd::Print('>'), DrawCmd::Print(' '), DrawCmd::Print('a')]));
}

#[test]
fn print_emits_move_then_characters() {
    let t = task(10, 24);
    let cmds = t.print("ab", 3, 5);
    assert_eq!(
        cmds,
        vec![DrawCmd::MoveTo(3, 5), DrawCmd::Print('a'), DrawCmd::Print('b')]
    );
}

#[test]
fn print_scrolls_on_wrap() {
    let t = task(4, 24);
    let cmds = t.print("abcde", 0, 5);
    // Four characters fit; the fifth forces the scroll sequence before it is
    // printed at column 0.
    assert_eq!(cmds[0], DrawCmd::MoveTo(0, 5));
    assert_eq!(&cmds[1..5], &[
        DrawCmd::Print('a'),
        DrawCmd::Print('b'),
        DrawCmd::Print('c'),
        DrawCmd::Print('d'),
    ]);
    assert_eq!(&cmds[5..], &[
        DrawCmd::SavePosition,
        DrawCmd::MoveToRow(23),
        DrawCmd::Print('\n'),
        DrawCmd::RestorePosition,
        DrawCmd::MoveToColumn(0),
        DrawCmd::Print('e'),
    ]);
}

#[test]
fn highlight_recolors_the_span() {
    let mut t = task(80, 24);
    let _ = t.handle_message(RequestTaskMessage::ReceivedPiece(String::from(
        "```\nab\n```\n",
    )));
    let _ = t.handle_message(RequestTaskMessage::Done);
    let blocks = t.metadata.code_blocks();
    assert_eq!(blocks.len(), 1);
    let (s, e) = (blocks[0].start, blocks[0].end);
    let cmds = t.set_highlight(true, s, e);
    assert_eq!(cmds[0], DrawCmd::SavePosition);
    assert!(cmds.contains(&DrawCmd::PrintStyled('a', true)));
    assert!(cmds.contains(&DrawCmd::PrintStyled('b', true)));
    assert_eq!(*cmds.last().unwrap(), DrawCmd::RestorePosition);
}
