//! What a client and a server are set up with.

use crate::assoc::{names, pairs_view};
use crate::error::{Error, ErrorKind, ErrorView};
use crate::text::texts;
use std::path::PathBuf;
use vstd::prelude::*;

verus! {

/// A path of the file system, as `std` keeps it. The library hands such a
/// path on and never looks into it.
#[verifier::external_type_specification]
#[verifier::external_body]
pub struct ExPathBuf(PathBuf);

/// Where the broker and the result backend of the task queue are.
#[derive(Clone, Debug)]
pub struct CeleryConf {
    pub broker_url: String,
    pub backend_url: String,
}

/// Where the object store is.
#[derive(Clone, Debug)]
pub struct CloudFSConf {
    pub mongo_url: String,
    pub mongo_dbname: String,
}

/// The settings of a client, as they are read.
#[derive(Debug)]
pub struct CmdProxyClientConfFile {
    pub redis_url: String,
    pub mongo_url: String,
    pub mongo_dbname: String,
}

/// The settings of a server, as they are read.
#[derive(Debug)]
pub struct CmdProxyServerConfFile {
    pub redis_url: String,
    pub mongo_url: String,
    pub mongo_dbname: String,
    pub command_palette: Option<PathBuf>,
}

#[derive(Clone, Debug)]
pub struct CmdProxyClientConf {
    pub celery: CeleryConf,
    pub cloud: CloudFSConf,
}

#[derive(Clone, Debug)]
pub struct CmdProxyServerConf {
    pub celery: CeleryConf,
    pub cloud: CloudFSConf,
    pub command_palette: Vec<(String, String)>,
    pub command_palette_path: Option<PathBuf>,
}

impl Default for CmdProxyClientConfFile {
    fn default() -> (r: CmdProxyClientConfFile)
        ensures
            r.redis_url@.len() == 0,
            r.mongo_url@.len() == 0,
            r.mongo_dbname@.len() == 0,
    {
        CmdProxyClientConfFile {
            redis_url: String::new(),
            mongo_url: String::new(),
            mongo_dbname: String::new(),
        }
    }
}

impl Default for CmdProxyServerConfFile {
    fn default() -> (r: CmdProxyServerConfFile)
        ensures
            r.redis_url@.len() == 0,
            r.mongo_url@.len() == 0,
            r.mongo_dbname@.len() == 0,
            r.command_palette is None,
    {
        CmdProxyServerConfFile {
            redis_url: String::new(),
            mongo_url: String::new(),
            mongo_dbname: String::new(),
            command_palette: None,
        }
    }
}

impl CmdProxyClientConf {
    /// The broker is the redis server; the result backend and the object
    /// store are both on the mongo server.
    pub fn new(conf: CmdProxyClientConfFile) -> (r: CmdProxyClientConf)
        ensures
            r.celery.broker_url@ == conf.redis_url@,
            r.celery.backend_url@ == conf.mongo_url@,
            r.cloud.mongo_url@ == conf.mongo_url@,
            r.cloud.mongo_dbname@ == conf.mongo_dbname@,
    {
        CmdProxyClientConf {
            celery: CeleryConf { broker_url: conf.redis_url, backend_url: conf.mongo_url.clone() },
            cloud: CloudFSConf { mongo_url: conf.mongo_url, mongo_dbname: conf.mongo_dbname },
        }
    }
}

impl CmdProxyServerConf {
    /// As for a client; `palette` is what the palette file holds, or `None`
    /// where there is no such file, which leaves the palette empty.
    pub fn new(conf: CmdProxyServerConfFile, palette: Option<Vec<(String, String)>>) -> (r:
        CmdProxyServerConf)
        ensures
            r.celery.broker_url@ == conf.redis_url@,
            r.celery.backend_url@ == conf.mongo_url@,
            r.cloud.mongo_url@ == conf.mongo_url@,
            r.cloud.mongo_dbname@ == conf.mongo_dbname@,
            r.command_palette_path == conf.command_palette,
            match palette {
                Some(entries) => r.command_palette == entries,
                None => r.command_palette@.len() == 0,
            },
    {
        CmdProxyServerConf {
            celery: CeleryConf { broker_url: conf.redis_url, backend_url: conf.mongo_url.clone() },
            cloud: CloudFSConf { mongo_url: conf.mongo_url, mongo_dbname: conf.mongo_dbname },
            command_palette: match palette {
                Some(entries) => entries,
                None => Vec::new(),
            },
            command_palette_path: conf.command_palette,
        }
    }
}

/// A setting: what the command line gives; else what the environment gives;
/// else `fallback`.
pub fn setting(given: Option<String>, from_env: Option<String>, fallback: &str) -> (r: String)
    ensures
        r@ == match given {
            Some(value) => value@,
            None => match from_env {
                Some(value) => value@,
                None => fallback@,
            },
        },
{
    match given {
        Some(value) => value,
        None => match from_env {
            Some(value) => value,
            None => fallback.to_owned(),
        },
    }
}

/// The fields that end before position `n` of `text`, without the empty
/// ones, and the position at which the field that is still open begins. A
/// field ends at each `sep`.
pub open spec fn cut(text: Seq<char>, sep: char, n: nat) -> (Seq<Seq<char>>, nat)
    decreases n,
{
    if n == 0 || n > text.len() {
        (Seq::empty(), 0)
    } else {
        let before = cut(text, sep, (n - 1) as nat);
        if text[n - 1] == sep {
            (
                if before.1 < n - 1 {
                    before.0.push(text.subrange(before.1 as int, n - 1))
                } else {
                    before.0
                },
                n,
            )
        } else {
            before
        }
    }
}

/// The fields of `text` between each two `sep`, without the empty ones.
pub open spec fn fields(text: Seq<char>, sep: char) -> Seq<Seq<char>> {
    let all = cut(text, sep, text.len());
    if all.1 < text.len() {
        all.0.push(text.subrange(all.1 as int, text.len() as int))
    } else {
        all.0
    }
}

/// The first `n` names of `list` without the empty ones, in order.
pub open spec fn nonempty(list: Seq<Seq<char>>, n: nat) -> Seq<Seq<char>>
    decreases n,
{
    if n == 0 || n > list.len() {
        Seq::empty()
    } else if list[n - 1].len() > 0 {
        nonempty(list, (n - 1) as nat).push(list[n - 1])
    } else {
        nonempty(list, (n - 1) as nat)
    }
}

/// The failure for a server without a queue to listen to.
pub open spec fn no_queues() -> ErrorView {
    ErrorView { kind: ErrorKind::Validation, message: "No queues to be consumed!"@ }
}

/// The queues that a server listens to: one for each command of the
/// palette that has a name, then those of the list `ext_queues`, whose
/// entries are separated by commas.
pub open spec fn queues_of(palette: Seq<(Seq<char>, Seq<char>)>, ext_queues: Seq<char>) -> Seq<
    Seq<char>,
> {
    nonempty(names(palette), palette.len()) + fields(ext_queues, ',')
}

/// The queues for a server with the palette `palette` and the extension
/// queues `ext_queues`. A server without any queue is refused.
pub fn command_queues(palette: &Vec<(String, String)>, ext_queues: &str) -> (r: Result<
    Vec<String>,
    Error,
>)
    ensures
        match r {
            Ok(queues) => texts(queues@) == queues_of(pairs_view(palette@), ext_queues@)
                && queues@.len() > 0,
            Err(e) => e@ == no_queues() && queues_of(pairs_view(palette@), ext_queues@).len()
                == 0,
        },
{
    let mut out: Vec<String> = Vec::new();
    let mut i: usize = 0;
    while i < palette.len()
        invariant
            i <= palette.len(),
            texts(out@) == nonempty(names(pairs_view(palette@)), i as nat),
        decreases palette.len() - i,
    {
        if palette[i].0.as_str().unicode_len() > 0 {
            out.push(palette[i].0.clone());
        }
        i += 1;
    }
    let ghost head = texts(out@);
    let n = ext_queues.unicode_len();
    let mut start: usize = 0;
    let mut j: usize = 0;
    while j < n
        invariant
            j <= n,
            n == ext_queues@.len(),
            start <= j,
            start == cut(ext_queues@, ',', j as nat).1,
            texts(out@) == head + cut(ext_queues@, ',', j as nat).0,
        decreases n - j,
    {
        let ghost before = out@;
        if ext_queues.get_char(j) == ',' {
            if start < j {
                out.push(ext_queues.substring_char(start, j).to_owned());
                assert(texts(out@) =~= texts(before).push(
                    ext_queues@.subrange(start as int, j as int),
                ));
            }
            start = j + 1;
        }
        j += 1;
    }
    let ghost before = out@;
    if start < n {
        out.push(ext_queues.substring_char(start, n).to_owned());
        assert(texts(out@) =~= texts(before).push(ext_queues@.subrange(start as int, n as int)));
    }
    if out.len() == 0 {
        Err(Error::new(ErrorKind::Validation, "No queues to be consumed!"))
    } else {
        Ok(out)
    }
}

} // verus!
