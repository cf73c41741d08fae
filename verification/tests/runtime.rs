use veriai::runtime::{
    build_prompt, completion_result, extract_completion, word_count, LlamaCppRuntime, Message,
    MockRuntime, RuntimeError,
};

fn msg(role: &str, content: &str) -> Message {
    Message { role: role.to_string(), content: content.to_string() }
}

#[test]
fn extracts_completion_from_cli_ui_output() {
    let raw = "Loading model...\n\n> prompt\n\nhello world\n\n[ Prompt: 1 t/s ]\n\nExiting...";
    assert_eq!(extract_completion(raw), "hello world");
}

#[test]
fn extracts_plain_output_trimmed() {
    assert_eq!(extract_completion("  the answer  \n"), "the answer");
    assert_eq!(extract_completion("text\n\nExiting..."), "text");
    assert_eq!(extract_completion(""), "");
}

#[test]
fn extraction_uses_the_last_prompt_marker() {
    let raw = "> first\n\nold\n> second\n\nnew text\n\n[ Prompt: 3 t/s ]";
    assert_eq!(extract_completion(raw), "new text");
}

#[test]
fn chatml_prompt_has_each_turn_and_the_assistant_opening() {
    let messages = vec![msg("system", "be brief"), msg("user", "hi")];
    let p = build_prompt(&messages).unwrap();
    assert_eq!(
        p,
        "<|im_start|>system\nbe brief<|im_end|>\n<|im_start|>user\nhi<|im_end|>\n<|im_start|>assistant\n"
    );
    assert_eq!(LlamaCppRuntime::prompt(&messages).unwrap(), p);
}

#[test]
fn prompt_rejects_empty_conversation_and_blank_roles() {
    assert_eq!(
        build_prompt(&vec![]),
        Err(RuntimeError::InvalidContext("at least one message is required".to_string()))
    );
    assert_eq!(
        build_prompt(&vec![msg(" \t", "x")]),
        Err(RuntimeError::InvalidContext("message roles must not be empty".to_string()))
    );
}

#[test]
fn completion_result_counts_words_and_rejects_empty_output() {
    let r = completion_result("x\n> q\n\n one  two\tthree \n\n[ Prompt: 2 t/s ]").unwrap();
    assert_eq!(r.content, "one  two\tthree");
    assert_eq!(r.tokens_generated, 3);
    assert_eq!(
        completion_result("   \n"),
        Err(RuntimeError::InferenceFailed("llama-cli returned an empty completion".to_string()))
    );
    assert_eq!(word_count(""), 0);
    assert_eq!(word_count("a b  c"), 3);
}

#[test]
fn llama_runtime_defaults_and_arguments() {
    let rt = LlamaCppRuntime::new("/models/m.gguf".to_string());
    assert_eq!(rt.binary_path, "llama-cli");
    assert_eq!(rt.max_tokens, 256);
    assert_eq!(rt.context_size, 4096);
    let rt2 = LlamaCppRuntime::with_binary("/m.gguf".to_string(), "/bin/llama".to_string());
    assert_eq!(rt2.binary_path, "/bin/llama");
    assert_eq!(rt2.model_path, "/m.gguf");
    let args = rt.arguments("P".to_string(), "0.7".to_string());
    assert_eq!(
        args,
        vec![
            "-m", "/models/m.gguf", "-p", "P", "-n", "256", "--ctx-size", "4096", "--temp", "0.7",
            "--no-conversation", "--single-turn", "--simple-io", "--no-display-prompt",
            "--no-show-timings",
        ]
    );
    assert_eq!(rt.id(), "llama_cpp");
    let m = rt.metadata();
    assert_eq!(m.model, "llama-3-8b-gguf");
    assert_eq!(m.runtime, "llama.cpp");
    assert_eq!(m.quantization, Some("Q4_K_M".to_string()));
}

#[test]
fn mock_runtime_echoes_the_last_message() {
    let rt = MockRuntime::new();
    let r = rt.generate(&vec![msg("user", "first"), msg("user", "last one")]).unwrap();
    assert_eq!(r.content, "VeriAI response: last one");
    assert_eq!(r.tokens_generated, 15);
    let r = rt.generate(&vec![]).unwrap();
    assert_eq!(r.content, "VeriAI response: hello");
    assert_eq!(rt.id(), "mock_runtime");
    assert_eq!(rt.metadata().model, "llama-3-8b-mock");
}

#[test]
fn runtime_error_messages() {
    assert_eq!(
        RuntimeError::ModelLoadFailed("x".to_string()).message(),
        "Failed to load model weights: x"
    );
    assert_eq!(RuntimeError::OutOfMemory.message(), "Out of memory on the device");
    assert_eq!(
        RuntimeError::InvalidContext("y".to_string()).message(),
        "Invalid request or prompt structure: y"
    );
}
