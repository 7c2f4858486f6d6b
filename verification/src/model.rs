//! The fixed catalog of selectable chat models: wire names, per-token prices
//! and context-size ceilings.

use vstd::prelude::*;
use crate::text::str_eq;

verus! {

/// The three selectable chat models.
#[derive(Debug, Clone, Copy, PartialEq, Eq, Structural)]
pub enum Model {
    Gpt35Turbo,
    Gpt4,
    Gpt432k,
}

/// The wire name of a model: the exact string the network API knows it by.
pub open spec fn wire_name_spec(m: Model) -> Seq<char> {
    match m {
        Model::Gpt35Turbo => "gpt-3.5-turbo"@,
        Model::Gpt4 => "gpt-4"@,
        Model::Gpt432k => "gpt-4-32k"@,
    }
}

/// Price of one prompt token, in millionths of a dollar.
pub open spec fn prompt_rate(m: Model) -> int {
    match m {
        Model::Gpt35Turbo => 2,
        Model::Gpt4 => 30,
        Model::Gpt432k => 60,
    }
}

/// Price of one completion token, in millionths of a dollar.
pub open spec fn completion_rate(m: Model) -> int {
    match m {
        Model::Gpt35Turbo => 2,
        Model::Gpt4 => 60,
        Model::Gpt432k => 120,
    }
}

impl Model {
    /// The wire name as an owned string.
    pub fn wire_name(&self) -> (r: String)
        ensures
            r@ == wire_name_spec(*self),
    {
        match self {
            Model::Gpt35Turbo => String::from_str("gpt-3.5-turbo"),
            Model::Gpt4 => String::from_str("gpt-4"),
            Model::Gpt432k => String::from_str("gpt-4-32k"),
        }
    }

    /// The model whose wire name is `s`; an error message for any other string.
    pub fn from_str(s: &str) -> (r: Result<Model, String>)
        ensures
            r is Ok <==> (s@ == "gpt-3.5-turbo"@ || s@ == "gpt-4"@ || s@ == "gpt-4-32k"@),
            r is Ok ==> wire_name_spec(r->Ok_0) == s@,
            r is Err ==> r->Err_0@ == s@ + " is not a valid model"@,
    {
        if str_eq(s, "gpt-3.5-turbo") {
            Ok(Model::Gpt35Turbo)
        } else if str_eq(s, "gpt-4") {
            Ok(Model::Gpt4)
        } else if str_eq(s, "gpt-4-32k") {
            Ok(Model::Gpt432k)
        } else {
            let mut msg = String::from_str(s);
            msg.append(" is not a valid model");
            Err(msg)
        }
    }

    /// Estimated price of a completion, in millionths of a dollar: linear in
    /// both token counts, with the per-token rates of the catalog.
    pub fn cost(&self, prompt_tokens: u64, completion_tokens: u64) -> (c: u128)
        ensures
            c == prompt_tokens * prompt_rate(*self) + completion_tokens * completion_rate(*self),
    {
        let (p_rate, c_rate): (u128, u128) = match self {
            Model::Gpt35Turbo => (2, 2),
            Model::Gpt4 => (30, 60),
            Model::Gpt432k => (60, 120),
        };
        (prompt_tokens as u128) * p_rate + (completion_tokens as u128) * c_rate
    }

    /// Context-size ceiling of the model, in tokens.
    pub fn context_size(&self) -> (n: usize)
        ensures
            self is Gpt35Turbo ==> n == 4096,
            self is Gpt4 ==> n == 8192,
            self is Gpt432k ==> n == 32768,
    {
        match self {
            Model::Gpt35Turbo => 4096,
            Model::Gpt4 => 8192,
            Model::Gpt432k => 32768,
        }
    }
}

impl Default for Model {
    /// The cheapest model of the catalog.
    fn default() -> (m: Model)
        ensures
            m is Gpt35Turbo,
    {
        Model::Gpt35Turbo
    }
}

} // verus!
