//! Errors that the agent reports.
use vstd::prelude::*;
use vstd::string::*;

verus! {

/// An error, with the tool that it comes from where there is one.
#[derive(Debug, PartialEq, Eq)]
pub enum AgentError {
    Tool { tool: String, message: String },
    Io(String),
    Other(String),
}

pub enum ErrorView {
    Tool(Seq<char>, Seq<char>),
    Io(Seq<char>),
    Other(Seq<char>),
}

impl AgentError {
    pub open spec fn view(&self) -> ErrorView {
        match self {
            AgentError::Tool { tool, message } => ErrorView::Tool(tool@, message@),
            AgentError::Io(message) => ErrorView::Io(message@),
            AgentError::Other(message) => ErrorView::Other(message@),
        }
    }

    /// An error of a tool.
    pub fn tool(tool: &str, message: &str) -> (r: AgentError)
        ensures
            r@ == ErrorView::Tool(tool@, message@),
    {
        AgentError::Tool { tool: tool.to_owned(), message: message.to_owned() }
    }

    /// An error that belongs to no tool.
    pub fn other(message: &str) -> (r: AgentError)
        ensures
            r@ == ErrorView::Other(message@),
    {
        AgentError::Other(message.to_owned())
    }

    /// What went wrong, in words.
    pub fn message(&self) -> (r: &String)
        ensures
            match self@ {
                ErrorView::Tool(_, m) => r@ == m,
                ErrorView::Io(m) => r@ == m,
                ErrorView::Other(m) => r@ == m,
            },
    {
        match self {
            AgentError::Tool { tool: _, message } => message,
            AgentError::Io(message) => message,
            AgentError::Other(message) => message,
        }
    }
}

} // verus!
