//! Options of models and inference contexts.
//!
//! Plain data with builder methods; the defaults are the conversation
//! formats and limits the engine starts from.

use vstd::prelude::*;
use vstd::string::StringExecFns;

verus! {

/// Default for a count meaning "let the engine decide".
pub fn default_i32_minus1() -> (r: i32)
    ensures
        r == -1,
{
    -1
}

/// Default context length in tokens.
pub fn default_usize_2048() -> (r: usize)
    ensures
        r == 2048,
{
    2048
}

/// Relies on num_cpus::get: the number of available logical CPUs,
/// documented to be at least 1.
#[verifier::external_body]
fn cpu_count() -> (n: usize)
    ensures
        1 <= n,
{
    num_cpus::get()
}

/// Default number of worker threads: one per logical CPU.
pub fn default_n_threads() -> (r: usize)
    ensures
        1 <= r,
{
    cpu_count()
}

/// Options of a model load.
#[derive(Debug, Clone, Copy, PartialEq, Eq, Structural)]
pub struct ModelOptions {
    pub cpu: bool,
    pub n_gpu_layers: i32,
}

impl ModelOptions {
    /// Forces the CPU backend.
    pub fn use_cpu(self) -> (r: Self)
        ensures
            r.cpu == true,
            r.n_gpu_layers == self.n_gpu_layers,
    {
        ModelOptions { cpu: true, n_gpu_layers: self.n_gpu_layers }
    }

    /// Sets how many layers run on the GPU; -1 lets the engine decide.
    pub fn with_n_gpu_layers(self, n_gpu_layers: i32) -> (r: Self)
        ensures
            r.cpu == self.cpu,
            r.n_gpu_layers == n_gpu_layers,
    {
        ModelOptions { cpu: self.cpu, n_gpu_layers }
    }
}

impl Default for ModelOptions {
    fn default() -> (r: Self)
        ensures
            r.cpu == false,
            r.n_gpu_layers == -1,
    {
        ModelOptions { cpu: false, n_gpu_layers: -1 }
    }
}

/// Default format wrapped around a user message.
pub fn default_conversation_user_format() -> (r: String)
    ensures
        r@ == "User:\n{prompt}\n"@,
{
    String::from_str("User:\n{prompt}\n")
}

/// Default format wrapped around an assistant message.
pub fn default_conversation_assistant_format() -> (r: String)
    ensures
        r@ == "Assistant:\n{prompt}\n"@,
{
    String::from_str("Assistant:\n{prompt}\n")
}

/// Default format of a full prompt.
pub fn default_conversation_prompt_format() -> (r: String)
    ensures
        r@ == "User:\n{prompt}\nAssistant:\n"@,
{
    String::from_str("User:\n{prompt}\nAssistant:\n")
}

/// Default format of a full prompt with an image.
pub fn default_conversation_prompt_format_with_image() -> (r: String)
    ensures
        r@ == "{image}User:\n{prompt}\nAssistant:\n"@,
{
    String::from_str("{image}User:\n{prompt}\nAssistant:\n")
}

/// Default strings that stop a prediction.
pub fn default_stop_tokens() -> (r: Vec<String>)
    ensures
        r@.len() == 2,
        r@[0]@ == "User:"@,
        r@[1]@ == "Assistant:"@,
{
    let mut r: Vec<String> = Vec::new();
    r.push(String::from_str("User:"));
    r.push(String::from_str("Assistant:"));
    r
}

/// One message of a recorded conversation.
#[derive(Debug)]
pub struct Message {
    pub message: String,
    pub is_user: bool,
}

impl Clone for Message {
    /// Clones preserve the value.
    fn clone(&self) -> (r: Self)
        ensures
            r == *self,
    {
        Message { message: self.message.clone(), is_user: self.is_user }
    }
}

/// An exact copy of a vector of strings.
fn clone_string_vec(v: &Vec<String>) -> (r: Vec<String>)
    ensures
        r@ == v@,
{
    let mut r: Vec<String> = Vec::new();
    let mut i: usize = 0;
    while i < v.len()
        invariant
            i <= v@.len(),
            r@.len() == i,
            forall|k: int| 0 <= k < i ==> r@[k] == v@[k],
        decreases v@.len() - i,
    {
        r.push(v[i].clone());
        i += 1;
    }
    proof {
        assert(r@ =~= v@);
    }
    r
}

/// An exact copy of a vector of messages.
fn clone_message_vec(v: &Vec<Message>) -> (r: Vec<Message>)
    ensures
        r@ == v@,
{
    let mut r: Vec<Message> = Vec::new();
    let mut i: usize = 0;
    while i < v.len()
        invariant
            i <= v@.len(),
            r@.len() == i,
            forall|k: int| 0 <= k < i ==> r@[k] == v@[k],
        decreases v@.len() - i,
    {
        r.push(v[i].clone());
        i += 1;
    }
    proof {
        assert(r@ =~= v@);
    }
    r
}

/// Options of an inference context.
#[derive(Debug)]
pub struct ContextOptions {
    pub seed: u32,
    pub n_ctx: usize,
    pub n_threads: usize,
    pub user_format: String,
    pub assistant_format: String,
    pub prompt_format: String,
    pub prompt_format_with_image: String,
    pub stop_tokens: Vec<String>,
    pub ctx: Vec<Message>,
}

impl Clone for ContextOptions {
    /// Clones preserve every field's value; the vector fields keep
    /// their contents.
    fn clone(&self) -> (r: Self)
        ensures
            r.seed == self.seed,
            r.n_ctx == self.n_ctx,
            r.n_threads == self.n_threads,
            r.user_format == self.user_format,
            r.assistant_format == self.assistant_format,
            r.prompt_format == self.prompt_format,
            r.prompt_format_with_image == self.prompt_format_with_image,
            r.stop_tokens@ == self.stop_tokens@,
            r.ctx@ == self.ctx@,
    {
        ContextOptions {
            seed: self.seed,
            n_ctx: self.n_ctx,
            n_threads: self.n_threads,
            user_format: self.user_format.clone(),
            assistant_format: self.assistant_format.clone(),
            prompt_format: self.prompt_format.clone(),
            prompt_format_with_image: self.prompt_format_with_image.clone(),
            stop_tokens: clone_string_vec(&self.stop_tokens),
            ctx: clone_message_vec(&self.ctx),
        }
    }
}

impl ContextOptions {
    /// Sets the sampling seed.
    pub fn with_seed(self, seed: u32) -> (r: Self)
        ensures
            r.seed == seed,
            r.n_ctx == self.n_ctx,
            r.n_threads == self.n_threads,
            r.user_format == self.user_format,
            r.assistant_format == self.assistant_format,
            r.prompt_format == self.prompt_format,
            r.prompt_format_with_image == self.prompt_format_with_image,
            r.stop_tokens == self.stop_tokens,
            r.ctx == self.ctx,
    {
        ContextOptions { seed, ..self }
    }

    /// Sets the context length in tokens.
    pub fn with_n_ctx(self, n_ctx: usize) -> (r: Self)
        ensures
            r.n_ctx == n_ctx,
            r.seed == self.seed,
            r.n_threads == self.n_threads,
            r.user_format == self.user_format,
            r.assistant_format == self.assistant_format,
            r.prompt_format == self.prompt_format,
            r.prompt_format_with_image == self.prompt_format_with_image,
            r.stop_tokens == self.stop_tokens,
            r.ctx == self.ctx,
    {
        ContextOptions { n_ctx, ..self }
    }

    /// Sets the format wrapped around a user message.
    pub fn with_conversation_user_format(self, format: &str) -> (r: Self)
        ensures
            r.user_format@ == format@,
            r.seed == self.seed,
            r.n_ctx == self.n_ctx,
            r.n_threads == self.n_threads,
            r.assistant_format == self.assistant_format,
            r.prompt_format == self.prompt_format,
            r.prompt_format_with_image == self.prompt_format_with_image,
            r.stop_tokens == self.stop_tokens,
            r.ctx == self.ctx,
    {
        ContextOptions { user_format: format.to_owned(), ..self }
    }

    /// Sets the format wrapped around an assistant message.
    pub fn with_conversation_assistant_format(self, format: &str) -> (r: Self)
        ensures
            r.assistant_format@ == format@,
            r.seed == self.seed,
            r.n_ctx == self.n_ctx,
            r.n_threads == self.n_threads,
            r.user_format == self.user_format,
            r.prompt_format == self.prompt_format,
            r.prompt_format_with_image == self.prompt_format_with_image,
            r.stop_tokens == self.stop_tokens,
            r.ctx == self.ctx,
    {
        ContextOptions { assistant_format: format.to_owned(), ..self }
    }

    /// Sets the format of a full prompt.
    pub fn with_conversation_prompt_format(self, format: &str) -> (r: Self)
        ensures
            r.prompt_format@ == format@,
            r.seed == self.seed,
            r.n_ctx == self.n_ctx,
            r.n_threads == self.n_threads,
            r.user_format == self.user_format,
            r.assistant_format == self.assistant_format,
            r.prompt_format_with_image == self.prompt_format_with_image,
            r.stop_tokens == self.stop_tokens,
            r.ctx == self.ctx,
    {
        ContextOptions { prompt_format: format.to_owned(), ..self }
    }

    /// Sets the format of a full prompt with an image.
    pub fn with_conversation_prompt_format_with_image(self, format: &str) -> (r: Self)
        ensures
            r.prompt_format_with_image@ == format@,
            r.seed == self.seed,
            r.n_ctx == self.n_ctx,
            r.n_threads == self.n_threads,
            r.user_format == self.user_format,
            r.assistant_format == self.assistant_format,
            r.prompt_format == self.prompt_format,
            r.stop_tokens == self.stop_tokens,
            r.ctx == self.ctx,
    {
        ContextOptions { prompt_format_with_image: format.to_owned(), ..self }
    }

    /// Sets the strings that stop a prediction.
    pub fn with_stop_tokens(self, tokens: &[&str]) -> (r: Self)
        ensures
            r.stop_tokens@.len() == tokens@.len(),
            forall|k: int| 0 <= k < tokens@.len() ==> r.stop_tokens@[k]@ == tokens@[k]@,
            r.seed == self.seed,
            r.n_ctx == self.n_ctx,
            r.n_threads == self.n_threads,
            r.user_format == self.user_format,
            r.assistant_format == self.assistant_format,
            r.prompt_format == self.prompt_format,
            r.prompt_format_with_image == self.prompt_format_with_image,
            r.ctx == self.ctx,
    {
        let mut stop_tokens: Vec<String> = Vec::new();
        let mut i: usize = 0;
        while i < tokens.len()
            invariant
                i <= tokens@.len(),
                stop_tokens@.len() == i,
                forall|k: int| 0 <= k < i ==> stop_tokens@[k]@ == tokens@[k]@,
            decreases tokens@.len() - i,
        {
            stop_tokens.push(tokens[i].to_owned());
            i += 1;
        }
        ContextOptions { stop_tokens, ..self }
    }

    /// Sets the recorded conversation.
    pub fn with_ctx(self, messages: Vec<Message>) -> (r: Self)
        ensures
            r.ctx == messages,
            r.seed == self.seed,
            r.n_ctx == self.n_ctx,
            r.n_threads == self.n_threads,
            r.user_format == self.user_format,
            r.assistant_format == self.assistant_format,
            r.prompt_format == self.prompt_format,
            r.prompt_format_with_image == self.prompt_format_with_image,
            r.stop_tokens == self.stop_tokens,
    {
        ContextOptions { ctx: messages, ..self }
    }
}

impl Default for ContextOptions {
    /// Seed zero, the default context length and thread count, the
    /// default conversation formats and stop tokens, no recorded
    /// conversation.
    fn default() -> (r: Self)
        ensures
            r.seed == 0,
            r.n_ctx == 2048,
            1 <= r.n_threads,
            r.user_format@ == "User:\n{prompt}\n"@,
            r.assistant_format@ == "Assistant:\n{prompt}\n"@,
            r.prompt_format@ == "User:\n{prompt}\nAssistant:\n"@,
            r.prompt_format_with_image@ == "{image}User:\n{prompt}\nAssistant:\n"@,
            r.stop_tokens@.len() == 2,
            r.stop_tokens@[0]@ == "User:"@,
            r.stop_tokens@[1]@ == "Assistant:"@,
            r.ctx@.len() == 0,
    {
        ContextOptions {
            seed: 0,
            n_ctx: default_usize_2048(),
            n_threads: default_n_threads(),
            user_format: default_conversation_user_format(),
            assistant_format: default_conversation_assistant_format(),
            prompt_format: default_conversation_prompt_format(),
            prompt_format_with_image: default_conversation_prompt_format_with_image(),
            stop_tokens: default_stop_tokens(),
            ctx: Vec::new(),
        }
    }
}

} // verus!
