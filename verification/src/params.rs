//! The parameter algebra: one tagged value per argument slot of a run request.
//!
//! A [`Param`] is either a plain value, a lookup that one side resolves, a
//! command, a file that has to travel between hosts, or a template whose
//! arguments are parameters again. Contracts speak of a parameter through its
//! view, [`ParamView`], in which every string is a sequence of characters.

use vstd::prelude::*;

verus! {

/// One argument slot of a run request.
///
/// The bindings of a `FormatParam` are kept in the order in which they were
/// given; where a name is bound twice, the later binding is the one a lookup
/// finds.
#[derive(Debug, PartialEq, Eq)]
pub enum Param {
    StrParam { value: String },
    EnvParam { name: String },
    RemoteEnvParam { name: String },
    CmdNameParam { name: String },
    CmdPathParam { path: String },
    InLocalFileParam { filepath: String, hostname: String },
    OutLocalFileParam { filepath: String, hostname: String },
    InCloudFileParam { filepath: String, hostname: String },
    OutCloudFileParam { filepath: String, hostname: String },
    FormatParam { tmpl: String, args: Vec<(String, Param)> },
}

/// What a [`Param`] stands for.
pub enum ParamView {
    Str { value: Seq<char> },
    Env { name: Seq<char> },
    RemoteEnv { name: Seq<char> },
    CmdName { name: Seq<char> },
    CmdPath { path: Seq<char> },
    InLocalFile { filepath: Seq<char>, hostname: Seq<char> },
    OutLocalFile { filepath: Seq<char>, hostname: Seq<char> },
    InCloudFile { filepath: Seq<char>, hostname: Seq<char> },
    OutCloudFile { filepath: Seq<char>, hostname: Seq<char> },
    Format { tmpl: Seq<char>, args: Seq<(Seq<char>, ParamView)> },
}

/// The key under which the file `filepath` of host `hostname` lies on the
/// object store: `@<hostname>:<filepath>`.
pub open spec fn cloud_key_of(hostname: Seq<char>, filepath: Seq<char>) -> Seq<char> {
    seq!['@'] + hostname + seq![':'] + filepath
}

impl ParamView {
    pub open spec fn is_input(self) -> bool {
        self is InLocalFile || self is InCloudFile
    }

    pub open spec fn is_output(self) -> bool {
        self is OutLocalFile || self is OutCloudFile
    }

    pub open spec fn is_local(self) -> bool {
        self is InLocalFile || self is OutLocalFile
    }

    pub open spec fn is_cloud(self) -> bool {
        self is InCloudFile || self is OutCloudFile
    }

    /// One of the four file variants.
    pub open spec fn is_file(self) -> bool {
        self.is_local() || self.is_cloud()
    }

    /// The host of a file parameter; empty for the other variants.
    pub open spec fn hostname(self) -> Seq<char> {
        match self {
            ParamView::InLocalFile { hostname, .. } => hostname,
            ParamView::OutLocalFile { hostname, .. } => hostname,
            ParamView::InCloudFile { hostname, .. } => hostname,
            ParamView::OutCloudFile { hostname, .. } => hostname,
            _ => Seq::empty(),
        }
    }

    /// The path of a file parameter; empty for the other variants.
    pub open spec fn filepath(self) -> Seq<char> {
        match self {
            ParamView::InLocalFile { filepath, .. } => filepath,
            ParamView::OutLocalFile { filepath, .. } => filepath,
            ParamView::InCloudFile { filepath, .. } => filepath,
            ParamView::OutCloudFile { filepath, .. } => filepath,
            _ => Seq::empty(),
        }
    }

    /// The cloud counterpart of a file parameter: a local variant becomes
    /// the cloud variant of the same direction, host and path. Every other
    /// value is left as it is.
    pub open spec fn as_cloud(self) -> ParamView {
        match self {
            ParamView::InLocalFile { filepath, hostname } => ParamView::InCloudFile {
                filepath,
                hostname,
            },
            ParamView::OutLocalFile { filepath, hostname } => ParamView::OutCloudFile {
                filepath,
                hostname,
            },
            _ => self,
        }
    }

    pub open spec fn cloud_key(self) -> Seq<char> {
        cloud_key_of(self.hostname(), self.filepath())
    }
}

/// The view of a list of bindings: names and values by their views, in the
/// same order.
pub open spec fn args_view(args: Seq<(String, Param)>) -> Seq<(Seq<char>, ParamView)>
    decreases args,
{
    Seq::new(
        args.len(),
        |i: int|
            if 0 <= i < args.len() {
                (args[i].0@, args[i].1.view())
            } else {
                (Seq::empty(), ParamView::Str { value: Seq::empty() })
            },
    )
}

/// The view of a list of bindings whose names are borrowed.
pub open spec fn named_view(args: Seq<(&str, Param)>) -> Seq<(Seq<char>, ParamView)> {
    Seq::new(args.len(), |i: int| (args[i].0@, args[i].1@))
}

impl View for Param {
    type V = ParamView;

    open spec fn view(&self) -> ParamView
        decreases self,
    {
        match self {
            Param::StrParam { value } => ParamView::Str { value: value@ },
            Param::EnvParam { name } => ParamView::Env { name: name@ },
            Param::RemoteEnvParam { name } => ParamView::RemoteEnv { name: name@ },
            Param::CmdNameParam { name } => ParamView::CmdName { name: name@ },
            Param::CmdPathParam { path } => ParamView::CmdPath { path: path@ },
            Param::InLocalFileParam { filepath, hostname } => ParamView::InLocalFile {
                filepath: filepath@,
                hostname: hostname@,
            },
            Param::OutLocalFileParam { filepath, hostname } => ParamView::OutLocalFile {
                filepath: filepath@,
                hostname: hostname@,
            },
            Param::InCloudFileParam { filepath, hostname } => ParamView::InCloudFile {
                filepath: filepath@,
                hostname: hostname@,
            },
            Param::OutCloudFileParam { filepath, hostname } => ParamView::OutCloudFile {
                filepath: filepath@,
                hostname: hostname@,
            },
            Param::FormatParam { tmpl, args } => ParamView::Format {
                tmpl: tmpl@,
                args: args_view(args@),
            },
        }
    }
}

/// Asks the operating system for the name of this host, through
/// `hostname::get`. The call can fail, and the name need not be valid
/// Unicode; both give `None`. Nothing is claimed of the name itself.
#[verifier::external_body]
fn host_name() -> Option<String> {
    hostname::get().ok().and_then(|name| name.into_string().ok())
}

impl Clone for Param {
    fn clone(&self) -> (r: Param)
        ensures
            r@ == self@,
        decreases self,
    {
        match self {
            Param::StrParam { value } => Param::StrParam { value: value.clone() },
            Param::EnvParam { name } => Param::EnvParam { name: name.clone() },
            Param::RemoteEnvParam { name } => Param::RemoteEnvParam { name: name.clone() },
            Param::CmdNameParam { name } => Param::CmdNameParam { name: name.clone() },
            Param::CmdPathParam { path } => Param::CmdPathParam { path: path.clone() },
            Param::InLocalFileParam { filepath, hostname } => Param::InLocalFileParam {
                filepath: filepath.clone(),
                hostname: hostname.clone(),
            },
            Param::OutLocalFileParam { filepath, hostname } => Param::OutLocalFileParam {
                filepath: filepath.clone(),
                hostname: hostname.clone(),
            },
            Param::InCloudFileParam { filepath, hostname } => Param::InCloudFileParam {
                filepath: filepath.clone(),
                hostname: hostname.clone(),
            },
            Param::OutCloudFileParam { filepath, hostname } => Param::OutCloudFileParam {
                filepath: filepath.clone(),
                hostname: hostname.clone(),
            },
            Param::FormatParam { tmpl, args } => {
                let mut out: Vec<(String, Param)> = Vec::new();
                let mut i: usize = 0;
                while i < args.len()
                    invariant
                        i <= args.len(),
                        out@.len() == i,
                        *self matches Param::FormatParam { args: a, .. } && a == *args,
                        forall|j: int|
                            0 <= j < i ==> out@[j].0@ == args@[j].0@ && out@[j].1@ == args@[j].1@,
                    decreases args.len() - i,
                {
                    let name = args[i].0.clone();
                    let value = args[i].1.clone();
                    out.push((name, value));
                    i += 1;
                }
                assert(args_view(out@) =~= args_view(args@));
                Param::FormatParam { tmpl: tmpl.clone(), args: out }
            },
        }
    }
}

impl Param {
    /// A literal value.
    pub fn str(value: &str) -> (r: Param)
        ensures
            r@ == (ParamView::Str { value: value@ }),
    {
        Param::StrParam { value: value.to_owned() }
    }

    /// A variable of the environment of the side that resolves the request.
    pub fn env(name: &str) -> (r: Param)
        ensures
            r@ == (ParamView::Env { name: name@ }),
    {
        Param::EnvParam { name: name.to_owned() }
    }

    /// A variable of the peer's environment.
    pub fn remote_env(name: &str) -> (r: Param)
        ensures
            r@ == (ParamView::RemoteEnv { name: name@ }),
    {
        Param::RemoteEnvParam { name: name.to_owned() }
    }

    /// A command by its name in the server's palette.
    pub fn cmd_name(name: &str) -> (r: Param)
        ensures
            r@ == (ParamView::CmdName { name: name@ }),
    {
        Param::CmdNameParam { name: name.to_owned() }
    }

    /// A command by its absolute path on the server.
    pub fn cmd_path(path: &str) -> (r: Param)
        ensures
            r@ == (ParamView::CmdPath { path: path@ }),
    {
        Param::CmdPathParam { path: path.to_owned() }
    }

    /// A template and the bindings for its placeholders, in the order given.
    pub fn format(tmpl: &str, args: Vec<(&str, Param)>) -> (r: Param)
        ensures
            r@ == (ParamView::Format { tmpl: tmpl@, args: named_view(args@) }),
    {
        let ghost given = args@;
        let mut out: Vec<(String, Param)> = Vec::new();
        for binding in it: args
            invariant
                it.seq() == given,
                out@.len() == it.index(),
                forall|j: int|
                    0 <= j < out@.len() ==> out@[j].0@ == given[j].0@ && out@[j].1@ == given[j].1@,
        {
            let (name, value) = binding;
            out.push((name.to_owned(), value));
        }
        assert(args_view(out@) =~= named_view(given));
        Param::FormatParam { tmpl: tmpl.to_owned(), args: out }
    }

    /// An input file of the host `hostname`, where a host name is at hand.
    pub fn local_input(filepath: &str, hostname: Option<String>) -> (r: Option<Param>)
        ensures
            match hostname {
                Some(host) => r matches Some(p) && p@ == (ParamView::InLocalFile {
                    filepath: filepath@,
                    hostname: host@,
                }),
                None => r is None,
            },
    {
        match hostname {
            Some(host) => Some(
                Param::InLocalFileParam { filepath: filepath.to_owned(), hostname: host },
            ),
            None => None,
        }
    }

    /// An output file of the host `hostname`, where a host name is at hand.
    pub fn local_output(filepath: &str, hostname: Option<String>) -> (r: Option<Param>)
        ensures
            match hostname {
                Some(host) => r matches Some(p) && p@ == (ParamView::OutLocalFile {
                    filepath: filepath@,
                    hostname: host@,
                }),
                None => r is None,
            },
    {
        match hostname {
            Some(host) => Some(
                Param::OutLocalFileParam { filepath: filepath.to_owned(), hostname: host },
            ),
            None => None,
        }
    }

    /// An input file at `filepath` on this host. `None` where the operating
    /// system gives no host name that is valid Unicode.
    pub fn ipath(filepath: &str) -> (r: Option<Param>)
        ensures
            r matches Some(p) ==> p@ is InLocalFile && p@.filepath() == filepath@,
    {
        Param::local_input(filepath, host_name())
    }

    /// An output file at `filepath` on this host. `None` where the operating
    /// system gives no host name that is valid Unicode.
    pub fn opath(filepath: &str) -> (r: Option<Param>)
        ensures
            r matches Some(p) ==> p@ is OutLocalFile && p@.filepath() == filepath@,
    {
        Param::local_output(filepath, host_name())
    }

    /// The host of a file parameter.
    pub fn hostname(&self) -> (r: &str)
        requires
            self@.is_file(),
        ensures
            r@ == self@.hostname(),
    {
        match self {
            Param::InLocalFileParam { hostname, .. } => hostname.as_str(),
            Param::OutLocalFileParam { hostname, .. } => hostname.as_str(),
            Param::InCloudFileParam { hostname, .. } => hostname.as_str(),
            Param::OutCloudFileParam { hostname, .. } => hostname.as_str(),
            _ => "",
        }
    }

    /// The path of a file parameter.
    pub fn filepath(&self) -> (r: &str)
        requires
            self@.is_file(),
        ensures
            r@ == self@.filepath(),
    {
        match self {
            Param::InLocalFileParam { filepath, .. } => filepath.as_str(),
            Param::OutLocalFileParam { filepath, .. } => filepath.as_str(),
            Param::InCloudFileParam { filepath, .. } => filepath.as_str(),
            Param::OutCloudFileParam { filepath, .. } => filepath.as_str(),
            _ => "",
        }
    }

    pub fn is_input(&self) -> (r: bool)
        ensures
            r == self@.is_input(),
    {
        match self {
            Param::InLocalFileParam { .. } => true,
            Param::InCloudFileParam { .. } => true,
            _ => false,
        }
    }

    pub fn is_output(&self) -> (r: bool)
        ensures
            r == self@.is_output(),
    {
        match self {
            Param::OutLocalFileParam { .. } => true,
            Param::OutCloudFileParam { .. } => true,
            _ => false,
        }
    }

    pub fn is_local(&self) -> (r: bool)
        ensures
            r == self@.is_local(),
    {
        match self {
            Param::InLocalFileParam { .. } => true,
            Param::OutLocalFileParam { .. } => true,
            _ => false,
        }
    }

    pub fn is_cloud(&self) -> (r: bool)
        ensures
            r == self@.is_cloud(),
    {
        match self {
            Param::InCloudFileParam { .. } => true,
            Param::OutCloudFileParam { .. } => true,
            _ => false,
        }
    }

    /// The cloud counterpart of a file parameter.
    pub fn as_cloud(&self) -> (r: Param)
        requires
            self@.is_file(),
        ensures
            r@ == self@.as_cloud(),
    {
        match self {
            Param::InLocalFileParam { filepath, hostname } => Param::InCloudFileParam {
                filepath: filepath.clone(),
                hostname: hostname.clone(),
            },
            Param::OutLocalFileParam { filepath, hostname } => Param::OutCloudFileParam {
                filepath: filepath.clone(),
                hostname: hostname.clone(),
            },
            _ => self.clone(),
        }
    }

    /// The key of a file parameter on the object store.
    pub fn cloud_url(&self) -> (r: String)
        requires
            self@.is_file(),
        ensures
            r@ == self@.cloud_key(),
    {
        cloud_key(self.hostname(), self.filepath())
    }
}

/// Writes the object-store key of the file `filepath` of host `hostname`.
pub fn cloud_key(hostname: &str, filepath: &str) -> (r: String)
    ensures
        r@ == cloud_key_of(hostname@, filepath@),
{
    proof {
        reveal_strlit("@");
        reveal_strlit(":");
    }
    let mut key = "@".to_owned();
    key.append(hostname);
    key.append(":");
    key.append(filepath);
    key
}

/// The content type that marks a directory on the object store: a directory
/// lies there packed, as one zip archive.
pub open spec fn packed_directory() -> Seq<char> {
    "application/directory+zip"@
}

/// The content type with which a packed directory is uploaded.
pub fn directory_content_type() -> (r: &'static str)
    ensures
        r@ == packed_directory(),
{
    "application/directory+zip"
}

/// Whether what was downloaded is a packed directory, by the content type
/// that its metadata holds, if they hold one.
pub fn is_packed_directory(content_type: Option<&str>) -> (r: bool)
    ensures
        r == (content_type matches Some(t) && t@ == packed_directory()),
{
    match content_type {
        Some(t) => t.to_owned() == directory_content_type().to_owned(),
        None => false,
    }
}

/// Taking the cloud counterpart twice is the same as taking it once.
pub proof fn lemma_as_cloud_idempotent(p: ParamView)
    ensures
        p.as_cloud().as_cloud() == p.as_cloud(),
{
}

/// A file parameter and its cloud counterpart name the same object on the
/// store, the counterpart is a cloud variant of the same direction, and a
/// cloud variant is its own counterpart.
pub proof fn lemma_as_cloud_keeps_key(p: ParamView)
    requires
        p.is_file(),
    ensures
        p.as_cloud().cloud_key() == p.cloud_key(),
        p.as_cloud().hostname() == p.hostname(),
        p.as_cloud().filepath() == p.filepath(),
        p.as_cloud().is_cloud(),
        p.as_cloud().is_input() == p.is_input(),
        p.as_cloud().is_output() == p.is_output(),
        p.is_cloud() ==> p.as_cloud() == p,
{
}

} // verus!
