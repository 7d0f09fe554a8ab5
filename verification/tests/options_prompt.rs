//! Options, defaults, prompt rendering, and the image feeding order.

use nebula::capability::CPUCapability;
use nebula::error::Error;
use nebula::options::{ContextOptions, Message, ModelOptions};
use nebula::prompt::{image_eval_plan, render_prompt, EvalStep};
use nebula::vocab::{token_piece_policy, AddBos, LlamaTokenType, PieceAction};

#[test]
fn model_options_builders() {
    let o = ModelOptions::default();
    assert!(!o.cpu);
    assert_eq!(o.n_gpu_layers, -1);
    let o = o.use_cpu().with_n_gpu_layers(17);
    assert!(o.cpu);
    assert_eq!(o.n_gpu_layers, 17);
}

#[test]
fn context_options_defaults() {
    let o = ContextOptions::default();
    assert_eq!(o.seed, 0);
    assert_eq!(o.n_ctx, 2048);
    assert!(o.n_threads >= 1);
    assert_eq!(o.user_format.as_str(), "User:\n{prompt}\n");
    assert_eq!(o.assistant_format.as_str(), "Assistant:\n{prompt}\n");
    assert_eq!(o.prompt_format.as_str(), "User:\n{prompt}\nAssistant:\n");
    assert_eq!(o.prompt_format_with_image.as_str(), "{image}User:\n{prompt}\nAssistant:\n");
    assert_eq!(o.stop_tokens.len(), 2);
    assert_eq!(o.stop_tokens[0].as_str(), "User:");
    assert_eq!(o.stop_tokens[1].as_str(), "Assistant:");
    assert!(o.ctx.is_empty());
}

#[test]
fn context_options_builders() {
    let o = ContextOptions::default()
        .with_seed(42)
        .with_n_ctx(512)
        .with_conversation_user_format("U {prompt}")
        .with_conversation_assistant_format("A {prompt}")
        .with_conversation_prompt_format("P {prompt}")
        .with_conversation_prompt_format_with_image("{image} P {prompt}")
        .with_stop_tokens(&["###", "==="])
        .with_ctx(vec![Message { message: "hi".to_string(), is_user: true }]);
    assert_eq!(o.seed, 42);
    assert_eq!(o.n_ctx, 512);
    assert_eq!(o.user_format.as_str(), "U {prompt}");
    assert_eq!(o.assistant_format.as_str(), "A {prompt}");
    assert_eq!(o.prompt_format.as_str(), "P {prompt}");
    assert_eq!(o.prompt_format_with_image.as_str(), "{image} P {prompt}");
    assert_eq!(o.stop_tokens, vec!["###".to_string(), "===".to_string()]);
    assert_eq!(o.ctx.len(), 1);
    assert!(o.ctx[0].is_user);
    let copy = o.clone();
    assert_eq!(copy.seed, 42);
    assert_eq!(copy.stop_tokens, o.stop_tokens);
}

#[test]
fn prompt_rendering_substitutes_the_variable() {
    let s = render_prompt("User:\n{prompt}\nAssistant:\n", "what is a tier?").unwrap();
    assert_eq!(s.as_str(), "User:\nwhat is a tier?\nAssistant:\n");
    let plain = render_prompt("no variable here", "x").unwrap();
    assert_eq!(plain.as_str(), "no variable here");
}

#[test]
fn malformed_template_is_rejected() {
    let r = render_prompt("User: {prompt", "x");
    assert!(matches!(r, Err(Error::PromptFormat)));
}

#[test]
fn image_prompt_splits_at_the_marker() {
    let plan = image_eval_plan("{image}User:\nhello\nAssistant:\n");
    assert_eq!(plan.len(), 3);
    match &plan[0] {
        EvalStep::Text(s, add_bos) => {
            assert_eq!(s.as_str(), "");
            assert!(!add_bos);
        },
        _ => panic!("expected leading text"),
    }
    assert!(matches!(plan[1], EvalStep::Image));
    match &plan[2] {
        EvalStep::Text(s, add_bos) => {
            assert_eq!(s.as_str(), "User:\nhello\nAssistant:\n");
            assert!(add_bos);
        },
        _ => panic!("expected trailing text"),
    }
}

#[test]
fn image_prompt_without_marker_feeds_image_first() {
    let plan = image_eval_plan("describe this\n");
    assert_eq!(plan.len(), 2);
    assert!(matches!(plan[0], EvalStep::Image));
    match &plan[1] {
        EvalStep::Text(s, add_bos) => {
            assert_eq!(s.as_str(), "describe this\n");
            assert!(add_bos);
        },
        _ => panic!("expected the whole text"),
    }
}

#[test]
fn capability_tags_parse_and_order() {
    assert_eq!(CPUCapability::from(""), CPUCapability::Base);
    assert_eq!(CPUCapability::from("avx"), CPUCapability::Avx);
    assert_eq!(CPUCapability::from("avx2"), CPUCapability::Avx2);
    assert!(CPUCapability::Avx2.at_least(&CPUCapability::Avx));
    assert!(CPUCapability::Avx.at_least(&CPUCapability::Avx));
    assert!(!CPUCapability::Base.at_least(&CPUCapability::Avx));
}

#[test]
fn token_piece_policy_matches_the_renderer() {
    assert_eq!(
        token_piece_policy(LlamaTokenType::Normal, true, false),
        PieceAction::Newline
    );
    assert_eq!(
        token_piece_policy(LlamaTokenType::Normal, false, false),
        PieceAction::Decode
    );
    assert_eq!(
        token_piece_policy(LlamaTokenType::UserDefined, false, true),
        PieceAction::Decode
    );
    assert_eq!(
        token_piece_policy(LlamaTokenType::Control, false, true),
        PieceAction::Blank
    );
    assert_eq!(
        token_piece_policy(LlamaTokenType::Control, false, false),
        PieceAction::Decode
    );
    assert_eq!(
        token_piece_policy(LlamaTokenType::Byte, false, false),
        PieceAction::Blank
    );
    assert!(AddBos::Always.should_add());
    assert!(!AddBos::Never.should_add());
}
