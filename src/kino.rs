use vstd::prelude::*;

verus! {

/// A recommended video channel.
pub struct YouTubeChannel {
    pub name: String,
    pub url: String,
    pub description: String,
}

/// A recommended blog.
pub struct Blog {
    pub name: String,
    pub url: String,
    pub description: String,
}

/// A recommended account.
pub struct TechAccount {
    pub name: String,
    pub username: String,
}

/// A planned devlog and whether it is done.
pub struct DevlogIdea {
    pub title: String,
    pub completed: bool,
}

/// Everything the recommendations page lists.
pub struct KinoData {
    pub youtube_channels: Vec<YouTubeChannel>,
    pub blogs: Vec<Blog>,
    pub tech_accounts: Vec<TechAccount>,
    pub indian_tech_accounts: Vec<TechAccount>,
    pub devlog_ideas: Vec<DevlogIdea>,
}

/// The lists of the recommendations page, in the order they are shown.
pub fn get_kino_data() -> (r: KinoData)
    ensures
        r.youtube_channels@.len() == 5,
        r.blogs@.len() == 6,
        r.tech_accounts@.len() == 9,
        r.indian_tech_accounts@.len() == 8,
        r.devlog_ideas@.len() == 4,
        r.devlog_ideas@[1].title@ == "shaders"@,
        forall|i: int| 0 <= i < r.devlog_ideas@.len() ==> (#[trigger] r.devlog_ideas@[i].completed <==> i == 1),
{
    proof {
        reveal_strlit("shaders");
    }
    let youtube_channels = vec![
        YouTubeChannel { name: "freya holmer".to_owned(), url: "https://www.youtube.com/@acegikmo".to_owned(), description: "beautiful videos on game dev and the mathematics behind game dev".to_owned() },
        YouTubeChannel { name: "colin galen".to_owned(), url: "https://www.youtube.com/@ColinGalen/".to_owned(), description: "competitive programming tips and tricks".to_owned() },
        YouTubeChannel { name: "argonautcode".to_owned(), url: "https://www.youtube.com/@argonautcode/".to_owned(), description: "".to_owned() },
        YouTubeChannel { name: "fractal philosphy".to_owned(), url: "https://www.youtube.com/@FractalPhilosophy/".to_owned(), description: "".to_owned() },
        YouTubeChannel { name: "sphaerophoria".to_owned(), url: "https://www.youtube.com/@sphaerophoria".to_owned(), description: "programming livestreams with zig".to_owned() },
    ];

    let blogs = vec![
        Blog { name: "veysel".to_owned(), url: "https://veysel.bearblog.dev/".to_owned(), description: "excellent curation of resources for linguistics and plt".to_owned() },
        Blog { name: "kennethnym".to_owned(), url: "https://kennethnym.com/".to_owned(), description: "well written articles on programming habits".to_owned() },
        Blog { name: "snats".to_owned(), url: "https://snats.xyz/pages/articles.html".to_owned(), description: "".to_owned() },
        Blog { name: "ludwig".to_owned(), url: "https://ludwigabap.bearblog.dev/".to_owned(), description: "great resources for ml and cs".to_owned() },
        Blog { name: "mcyoung".to_owned(), url: "https://mcyoung.xyz/posts".to_owned(), description: "compilers and performance".to_owned() },
        Blog { name: "maharshi".to_owned(), url: "https://maharshi.bearblog.dev/blog/".to_owned(), description: "cuda and ml".to_owned() },
    ];

    let tech_accounts = vec![
        TechAccount { name: "seatedro".to_owned(), username: "seatedro".to_owned() },
        TechAccount { name: "ludwig".to_owned(), username: "ludwigABAP".to_owned() },
        TechAccount { name: "zoe".to_owned(), username: "zoriya_dev".to_owned() },
        TechAccount { name: "kenneth".to_owned(), username: "kennethnym".to_owned() },
        TechAccount { name: "vin".to_owned(), username: "vin_acct".to_owned() },
        TechAccount { name: "aryas".to_owned(), username: "Aryvyo".to_owned() },
        TechAccount { name: "aster".to_owned(), username: "4ster_light".to_owned() },
        TechAccount { name: "marin".to_owned(), username: "marinn1_".to_owned() },
        TechAccount { name: "char".to_owned(), username: "cunjur".to_owned() },
    ];

    let indian_tech_accounts = vec![
        TechAccount { name: "rex".to_owned(), username: "rexmkv".to_owned() },
        TechAccount { name: "rc".to_owned(), username: "rcx86".to_owned() },
        TechAccount { name: "nsg650".to_owned(), username: "NSG650".to_owned() },
        TechAccount { name: "cneuralnets".to_owned(), username: "cneuralnetwork".to_owned() },
        TechAccount { name: "himanshu".to_owned(), username: "himanshustwts".to_owned() },
        TechAccount { name: "minami".to_owned(), username: "minamisatokun".to_owned() },
        TechAccount { name: "curlydazai".to_owned(), username: "curlydazai".to_owned() },
        TechAccount { name: "maharshi".to_owned(), username: "mrsiipa".to_owned() },
    ];

    let devlog_ideas = vec![
        DevlogIdea { title: "barebones game in assembly".to_owned(), completed: false },
        DevlogIdea { title: "shaders".to_owned(), completed: true },
        DevlogIdea { title: "procedural animation".to_owned(), completed: false },
        DevlogIdea { title: "chess engine from scratch".to_owned(), completed: false },
    ];

    KinoData { youtube_channels, blogs, tech_accounts, indian_tech_accounts, devlog_ideas }
}

} // verus!
