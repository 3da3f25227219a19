//! Runtime checks of the build-output classifier.
use irust_core::IRust;
use irust_core::version::Version;

fn host() -> IRust {
    IRust::new(Version { major: 1, minor: 31, patch: 0 })
}

#[test]
fn progress_noise_is_filtered() {
    let h = host();
    let out = h.format_eval_output(b"Compiling foo\nwarning: unused\n\nrunning\n");
    assert_eq!(out, b"warning: unused\n".to_vec());
}

#[test]
fn clean_text_is_returned_byte_identical() {
    let h = host();
    let input: &[u8] = b"plain program output\nwith two lines\n";
    assert_eq!(h.format_eval_output(input), input.to_vec());
}

#[test]
fn empty_input_stays_empty() {
    let h = host();
    assert_eq!(h.format_eval_output(b""), b"".to_vec());
}

#[test]
fn error_block_kept_up_to_blank_line() {
    let h = host();
    let input = b"Compiling x\nerror: bad\n --> main.rs:1:1\n\nFinished dev\n";
    assert_eq!(h.format_eval_output(input), b"error: bad\n --> main.rs:1:1\n".to_vec());
}

#[test]
fn two_blocks_survive_interleaved_noise() {
    let h = host();
    let input = b"Compiling y\nwarning: a\n\nCompiling z\nerror: b\nnote\n\ndone\n";
    assert_eq!(h.format_eval_output(input), b"warning: a\nerror: b\nnote\n".to_vec());
}

#[test]
fn noise_only_input_becomes_empty() {
    let h = host();
    let input = b"Compiling q\n   Finished\n    Running\n";
    assert_eq!(h.format_eval_output(input), b"".to_vec());
}

#[test]
fn unterminated_diagnostic_line_is_kept() {
    let h = host();
    let input = b"Compiling q\nwarning: tail";
    assert_eq!(h.format_eval_output(input), b"warning: tail".to_vec());
}
