use vstd::prelude::*;

verus! {

/// A project shown on the projects page.
#[derive(Clone, Debug)]
pub struct Project {
    pub name: String,
    pub desc: String,
    pub tech: Vec<String>,
    pub link: Option<String>,
}

/// A group of projects under one heading.
#[derive(Clone, Debug)]
pub struct ProjectCategory {
    /// The heading of the group.
    pub kind: String,
    pub array: Vec<Project>,
}

/// The projects page's groups, in the order they are shown.
pub fn get_projects() -> (r: Vec<ProjectCategory>)
    ensures
        r@.len() == 5,
        r@[0].kind@ == "Flora"@,
        r@[0].array@[0].name@ == "aster"@,
        r@[0].array@[0].link is Some && r@[0].array@[0].link->0@ == "https://flora.tf"@,
        r@[0].array@.len() == 4,
        r@[1].kind@ == "Good Projects"@,
        r@[1].array@.len() == 7,
        r@[2].kind@ == "Decent Projects"@,
        r@[2].array@.len() == 10,
        r@[3].kind@ == "Discord Bots"@,
        r@[3].array@.len() == 3,
        r@[4].kind@ == "Configs"@,
        r@[4].array@.len() == 2,
{
    proof {
        reveal_strlit("Flora");
        reveal_strlit("aster");
        reveal_strlit("https://flora.tf");
        reveal_strlit("Good Projects");
        reveal_strlit("Decent Projects");
        reveal_strlit("Discord Bots");
        reveal_strlit("Configs");
    }
    vec![
        ProjectCategory {
            kind: "Flora".to_owned(),
            array: vec![
                Project {
                    name: "aster".to_owned(),
                    desc: "redefining the way to collaborate with people on youtube channels.".to_owned(),
                    tech: vec!["solid start".to_owned()],
                    link: Some("https://flora.tf".to_owned()),
                },
                Project {
                    name: "orchid".to_owned(),
                    desc: "quick, easy to use and optimised meme // profile picture editor.".to_owned(),
                    tech: vec!["react".to_owned(), "flask".to_owned()],
                    link: Some("https://orchid.rex.wf".to_owned()),
                },
                Project {
                    name: "sakura".to_owned(),
                    desc: "beautiful, fast and uniquely generated avatars as a microservice".to_owned(),
                    tech: vec!["golang".to_owned()],
                    link: Some("https://github.com/floraorg/sakura".to_owned()),
                },
                Project {
                    name: "faux".to_owned(),
                    desc: "minimal, fast and eyecandy placeholders as a microservice".to_owned(),
                    tech: vec!["golang".to_owned()],
                    link: Some("https://github.com/floraorg/faux".to_owned()),
                },
            ],
        },
        ProjectCategory {
            kind: "Good Projects".to_owned(),
            array: vec![
                Project {
                    name: "ascendant".to_owned(),
                    desc: "wip 2d club penguin card jutsu style game made with rayilb".to_owned(),
                    tech: vec!["zig".to_owned(), "raylib".to_owned()],
                    link: None,
                },
                Project {
                    name: "holmes".to_owned(),
                    desc: "0 js, 100% golang and templ batteries included starter kit for  crypt hunts".to_owned(),
                    tech: vec!["templ".to_owned(), "golang".to_owned()],
                    link: None,
                },
                Project {
                    name: "me".to_owned(),
                    desc: "my own personal blazingly fast website written in rust".to_owned(),
                    tech: vec!["rust".to_owned(), "actix".to_owned()],
                    link: None,
                },
                Project {
                    name: "pixie".to_owned(),
                    desc: "wasm based small lightroom like image editor. only canvas and rust".to_owned(),
                    tech: vec!["rust".to_owned(), "next".to_owned()],
                    link: None,
                },
                Project {
                    name: "biotrack".to_owned(),
                    desc: "an online personal health diary to keep track of you life with ai assistance".to_owned(),
                    tech: vec!["golang".to_owned(), "js".to_owned(), "gemini".to_owned()],
                    link: None,
                },
                Project {
                    name: "pound".to_owned(),
                    desc: "terminal text editor written entirely in C (with vim motions).".to_owned(),
                    tech: vec!["c".to_owned()],
                    link: None,
                },
                Project {
                    name: "prism".to_owned(),
                    desc: "neovim plugin to easily have custom colorschemes with caching for speed".to_owned(),
                    tech: vec!["neovim".to_owned(), "lua".to_owned()],
                    link: None,
                },
            ],
        },
        ProjectCategory {
            kind: "Decent Projects".to_owned(),
            array: vec![
                Project {
                    name: "webby".to_owned(),
                    desc: "web server written entirely from scratch in c. (with a basic todo app)".to_owned(),
                    tech: vec!["c".to_owned()],
                    link: None,
                },
                Project {
                    name: "lockin".to_owned(),
                    desc: "24x7 lofi radio plus general productivity website".to_owned(),
                    tech: vec!["next".to_owned(), "tailwind".to_owned()],
                    link: Some("https://cafe.namishh.me".to_owned()),
                },
                Project {
                    name: "lovbyte".to_owned(),
                    desc: "Dating app for programmers rich with features, minimal by design. ".to_owned(),
                    tech: vec!["remix".to_owned(), "tailwind".to_owned()],
                    link: None,
                },
                Project {
                    name: "neuing".to_owned(),
                    desc: "a neural network written entirely in golang without external modules".to_owned(),
                    tech: vec!["golang".to_owned(), "maths".to_owned()],
                    link: None,
                },
                Project {
                    name: "shawty".to_owned(),
                    desc: "a url shortener written entirely in pure C and HTMX".to_owned(),
                    tech: vec!["c".to_owned(), "htmx".to_owned()],
                    link: None,
                },
                Project {
                    name: "techfestweb".to_owned(),
                    desc: "a beautiful, modern, sleek and responsive website template for techfests".to_owned(),
                    tech: vec!["remix".to_owned(), "tailwind".to_owned()],
                    link: Some("https://techfestweb.vercel.app".to_owned()),
                },
                Project {
                    name: "hacknio".to_owned(),
                    desc: "almost redid the entire ui for this hackernews frontend".to_owned(),
                    tech: vec!["next".to_owned(), "tailwind".to_owned()],
                    link: Some("https://hacknio.vercel.app".to_owned()),
                },
                Project {
                    name: "cyquest".to_owned(),
                    desc: "website for the cyquest 2023, with a complete desktop like interface".to_owned(),
                    tech: vec!["react".to_owned(), "tailwind".to_owned()],
                    link: None,
                },
                Project {
                    name: "bubble".to_owned(),
                    desc: "a personal diary app with database and authentication!".to_owned(),
                    tech: vec!["html".to_owned(), "flask".to_owned()],
                    link: None,
                },
                Project {
                    name: "zenote".to_owned(),
                    desc: "desktop app to create markdown notes locally without any uneeded bs".to_owned(),
                    tech: vec!["tauri".to_owned(), "react".to_owned()],
                    link: None,
                },
            ],
        },
        ProjectCategory {
            kind: "Discord Bots".to_owned(),
            array: vec![
                Project {
                    name: "scuffword".to_owned(),
                    desc: "password game implmentation in c in the form of discord bot".to_owned(),
                    tech: vec!["c".to_owned()],
                    link: None,
                },
                Project {
                    name: "linear".to_owned(),
                    desc: "discord bot that can be used to host cryptic hunt events. (with hints)".to_owned(),
                    tech: vec!["rust".to_owned()],
                    link: None,
                },
                Project {
                    name: "remellow".to_owned(),
                    desc: "general purpose discord bot with discord.js".to_owned(),
                    tech: vec!["javascript".to_owned()],
                    link: None,
                },
            ],
        },
        ProjectCategory {
            kind: "Configs".to_owned(),
            array: vec![
                Project {
                    name: "crystal".to_owned(),
                    desc: "nix dotfiles for my daily driver. comes with awesome as the window manager".to_owned(),
                    tech: vec!["nix".to_owned(), "ricing".to_owned()],
                    link: None,
                },
                Project {
                    name: "kodo".to_owned(),
                    desc: "neovim configuration that is speedy, usable, and very good looking".to_owned(),
                    tech: vec!["neovim".to_owned(), "lua".to_owned()],
                    link: None,
                },
            ],
        },
    ]
}

} // verus!
