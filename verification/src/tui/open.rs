//! How a link is opened: with the system's own opener, or with the
//! configured command.

use vstd::prelude::*;
use vstd::string::*;

use crate::config::Platform;
use crate::text::{split_words, texts, words};

verus! {

/// What is to be started to open a link.
#[derive(Debug, PartialEq, Eq)]
pub enum Launch {
    /// Hand the link to the system's own opener.
    System(String),
    /// Start a program with these arguments.
    Command { program: String, args: Vec<String> },
}

/// What a [`Launch`] holds, as plain values.
pub enum LaunchView {
    System(Seq<char>),
    Command { program: Seq<char>, args: Seq<Seq<char>> },
}

impl View for Launch {
    type V = LaunchView;

    open spec fn view(&self) -> LaunchView {
        match self {
            Launch::System(url) => LaunchView::System(url@),
            Launch::Command { program, args } => LaunchView::Command {
                program: program@,
                args: texts(args@),
            },
        }
    }
}

/// The arguments that a command gets: its own, with the link in place of
/// every `%u`, and the link at the end where there is no `%u`.
pub open spec fn arguments(parts: Seq<Seq<char>>, url: Seq<char>) -> Seq<Seq<char>> {
    let filled = parts.map_values(
        |part: Seq<char>|
            if part == "%u"@ {
                url
            } else {
                part
            },
    );
    if parts.contains("%u"@) {
        filled
    } else {
        filled.push(url)
    }
}

/// What is started to open `url` where `opener` is configured and has
/// the words `parts`. An opener without a word leaves it to the system. On
/// Windows the opener `start` is run through the command interpreter. Any
/// other opener is a program, its first word, with arguments, the words
/// after it.
pub open spec fn planned(
    platform: Platform,
    opener: Seq<char>,
    parts: Seq<Seq<char>>,
    url: Seq<char>,
) -> LaunchView {
    if parts.len() == 0 {
        LaunchView::System(url)
    } else if platform == Platform::Windows && opener == "start"@ {
        LaunchView::Command { program: "cmd"@, args: seq!["/c"@, "start"@, ""@, url] }
    } else {
        LaunchView::Command { program: parts[0], args: arguments(parts.drop_first(), url) }
    }
}

/// What is started to open `url` where `opener` is configured.
pub open spec fn launched(platform: Platform, opener: Seq<char>, url: Seq<char>) -> LaunchView {
    planned(platform, opener, words(opener), url)
}

/// Decides what is to be started to open `url`.
pub fn launch(platform: Platform, opener: &str, url: &str) -> (plan: Launch)
    ensures
        plan@ == launched(platform, opener@, url@),
{
    plan(platform, opener, split_words(opener), url)
}

/// Decides what is to be started to open `url`, given the opener and the
/// words it is made of.
pub fn plan(platform: Platform, opener: &str, parts: Vec<String>, url: &str) -> (plan: Launch)
    ensures
        plan@ == planned(platform, opener@, texts(parts@), url@),
{
    let mut parts = parts;
    let ghost given = texts(parts@);
    if parts.len() == 0 {
        return Launch::System(String::from_str(url));
    }
    let on_windows = match platform {
        Platform::Windows => true,
        _ => false,
    };
    if on_windows && String::from_str(opener) == String::from_str("start") {
        let mut args: Vec<String> = Vec::new();
        args.push(String::from_str("/c"));
        args.push(String::from_str("start"));
        args.push(String::from_str(""));
        args.push(String::from_str(url));
        proof {
            assert(texts(args@) =~= seq!["/c"@, "start"@, ""@, url@]);
        }
        return Launch::Command { program: String::from_str("cmd"), args };
    }
    let program = parts.remove(0);
    proof {
        assert(texts(parts@) =~= given.drop_first());
    }
    let placeholder = String::from_str("%u");
    let mut args: Vec<String> = Vec::new();
    let mut replaced = false;
    let mut i: usize = 0;
    let ghost rest = texts(parts@);
    let ghost fill = |part: Seq<char>|
        if part == "%u"@ {
            url@
        } else {
            part
        };
    while i < parts.len()
        invariant
            i <= parts.len(),
            rest == texts(parts@),
            placeholder@ == "%u"@,
            fill == (|part: Seq<char>|
                if part == "%u"@ {
                    url@
                } else {
                    part
                }),
            texts(args@) == rest.take(i as int).map_values(fill),
            replaced == rest.take(i as int).contains("%u"@),
        decreases parts.len() - i,
    {
        let is_placeholder = parts[i] == placeholder;
        if is_placeholder {
            args.push(String::from_str(url));
            replaced = true;
        } else {
            args.push(parts[i].clone());
        }
        proof {
            let upto = rest.take(i as int);
            let wider = rest.take(i + 1);
            assert(wider.map_values(fill) =~= upto.map_values(fill).push(fill(rest[i as int])));
            if is_placeholder {
                assert(wider[i as int] == "%u"@);
            }
        }
        i = i + 1;
    }
    proof {
        assert(rest.take(i as int) =~= rest);
    }
    if !replaced {
        let ghost filled = args@;
        args.push(String::from_str(url));
        proof {
            assert(texts(args@) =~= texts(filled).push(url@));
        }
    }
    Launch::Command { program, args }
}

} // verus!
