//! The commands of the command line.

use vstd::prelude::*;

verus! {

/// What the program is asked to do.
#[derive(Debug, Clone, Copy, PartialEq, Eq, Structural)]
pub enum Commands {
    /// Runs the database migrations.
    Migrate,
    /// Makes the default admin user if there is none.
    InitAdmin,
    /// Makes a new Nostr key pair and prints it.
    GenerateNostrKeys,
    /// Starts the API server.
    Serve,
}

/// The parsed command line.
#[derive(Debug, Clone, Copy, PartialEq, Eq, Structural)]
pub struct Cli {
    pub command: Commands,
}

impl Commands {
    /// The command that the word `word` names, if it names one.
    pub fn from_word(word: &str) -> (command: Option<Commands>)
        ensures
            command == command_of(word@),
    {
        if crate::text::same_text(word, "migrate") {
            Some(Commands::Migrate)
        } else if crate::text::same_text(word, "init-admin") {
            Some(Commands::InitAdmin)
        } else if crate::text::same_text(word, "generate-nostr-keys") {
            Some(Commands::GenerateNostrKeys)
        } else if crate::text::same_text(word, "serve") {
            Some(Commands::Serve)
        } else {
            None
        }
    }

    /// Whether the command starts the server, which `main` does itself.
    pub fn is_serve(&self) -> (serve: bool)
        ensures
            serve == (*self == Commands::Serve),
    {
        match self {
            Commands::Serve => true,
            _ => false,
        }
    }
}

/// The command that a word names.
pub open spec fn command_of(word: Seq<char>) -> Option<Commands> {
    if word == "migrate"@ {
        Some(Commands::Migrate)
    } else if word == "init-admin"@ {
        Some(Commands::InitAdmin)
    } else if word == "generate-nostr-keys"@ {
        Some(Commands::GenerateNostrKeys)
    } else if word == "serve"@ {
        Some(Commands::Serve)
    } else {
        None
    }
}

impl Cli {
    /// The command line that names `word`; the server where no word is
    /// given.
    pub fn from_args(word: Option<&str>) -> (cli: Option<Cli>)
        ensures
            cli == match word {
                None => Some(Cli { command: Commands::Serve }),
                Some(w) => match command_of(w@) {
                    Some(command) => Some(Cli { command }),
                    None => None,
                },
            },
    {
        match word {
            None => Some(Cli { command: Commands::Serve }),
            Some(w) => match Commands::from_word(w) {
                Some(command) => Some(Cli { command }),
                None => None,
            },
        }
    }
}

} // verus!
