//! Resolution of EXTERNPROTO dependencies: where a declared PROTO is found, and the
//! decisions taken while loading the files it names.
//!
//! Paths are handled as text with POSIX rules: `/` separates components and a path
//! that starts with `/` is absolute.

use crate::error::Error;
use crate::text::string_from_chars;
use vstd::prelude::*;

verus! {

/// An error of resolution.
#[derive(Debug)]
pub enum ProtoError {
    ParseError(String),
    TemplateError(String),
    IoError(std::io::Error),
}

/// Configuration of the resolver.
#[derive(Debug)]
pub struct ResolveOptions {
    /// The Webots projects directory, against which `webots://` URLs resolve.
    pub webots_projects_dir: Option<String>,
    /// The deepest nesting of EXTERNPROTO files that may be loaded.
    pub max_depth: usize,
}

impl ResolveOptions {
    /// The default options: no projects directory, nesting depth at most 10.
    pub fn new() -> (r: ResolveOptions)
        ensures
            r.webots_projects_dir is None,
            r.max_depth == 10,
    {
        ResolveOptions { webots_projects_dir: None, max_depth: 10 }
    }

    /// The same options with the given projects directory.
    pub fn with_webots_projects_dir(self, path: String) -> (r: ResolveOptions)
        ensures
            r.webots_projects_dir == Some(path),
            r.max_depth == self.max_depth,
    {
        let mut s = self;
        s.webots_projects_dir = Some(path);
        s
    }

    /// The same options with the given maximum depth.
    pub fn with_max_depth(self, depth: usize) -> (r: ResolveOptions)
        ensures
            r.max_depth == depth,
            r.webots_projects_dir == self.webots_projects_dir,
    {
        let mut s = self;
        s.max_depth = depth;
        s
    }
}

// ---------------------------------------------------------------------------
// Paths
// ---------------------------------------------------------------------------
pub open spec fn starts_with(s: Seq<char>, prefix: Seq<char>) -> bool {
    s.len() >= prefix.len() && s.take(prefix.len() as int) == prefix
}

/// A path is absolute when it starts with `/`.
pub open spec fn is_absolute(p: Seq<char>) -> bool {
    p.len() > 0 && p[0] == '/'
}

/// `base` joined with `p`: `p` itself when it is absolute or `base` is empty,
/// otherwise the two with one `/` between them.
pub open spec fn join_path(base: Seq<char>, p: Seq<char>) -> Seq<char> {
    if is_absolute(p) || base.len() == 0 {
        p
    } else if base.last() == '/' {
        base + p
    } else {
        base + seq!['/'] + p
    }
}

pub open spec fn webots_scheme() -> Seq<char> {
    seq!['w', 'e', 'b', 'o', 't', 's', ':', '/', '/']
}

pub open spec fn https_scheme() -> Seq<char> {
    seq!['h', 't', 't', 'p', 's', ':', '/', '/']
}

pub open spec fn http_scheme() -> Seq<char> {
    seq!['h', 't', 't', 'p', ':', '/', '/']
}

/// Where an EXTERNPROTO URL leads, or the message of the error it gives: a
/// `webots://` URL under the projects directory (which must be configured), no
/// network URL, a local path as it is when absolute and under `base` otherwise.
pub open spec fn resolve_url_spec(url: Seq<char>, base: Seq<char>, dir: Option<Seq<char>>) -> Result<Seq<char>, Seq<char>> {
    if starts_with(url, webots_scheme()) {
        match dir {
            Some(d) => Ok(join_path(d, url.skip(9))),
            None => Err(
                "webots:// URL '"@ + url + "' requires webots_projects_dir to be configured"@,
            ),
        }
    } else if starts_with(url, https_scheme()) || starts_with(url, http_scheme()) {
        Err("Network URL '"@ + url + "' is not supported by the resolver"@)
    } else if is_absolute(url) {
        Ok(url)
    } else {
        Ok(join_path(base, url))
    }
}

fn has_prefix(s: &Vec<char>, prefix: &Vec<char>) -> (r: bool)
    ensures
        r == starts_with(s@, prefix@),
{
    if s.len() < prefix.len() {
        return false;
    }
    let mut i: usize = 0;
    while i < prefix.len()
        invariant
            i <= prefix@.len() <= s@.len(),
            forall|k: int| 0 <= k < i ==> s@[k] == prefix@[k],
        decreases prefix@.len() - i,
    {
        if s[i] != prefix[i] {
            proof {
                assert(s@.take(prefix@.len() as int)[i as int] != prefix@[i as int]);
            }
            return false;
        }
        i = i + 1;
    }
    proof {
        assert(s@.take(prefix@.len() as int) =~= prefix@);
    }
    true
}

fn append_chars(out: &mut Vec<char>, v: &Vec<char>, from: usize)
    requires
        from <= v@.len(),
    ensures
        final(out)@ == old(out)@ + v@.skip(from as int),
{
    let ghost start = out@;
    let mut i = from;
    while i < v.len()
        invariant
            from <= i <= v@.len(),
            out@ == start + v@.subrange(from as int, i as int),
        decreases v@.len() - i,
    {
        out.push(v[i]);
        i = i + 1;
        proof {
            assert(out@ =~= start + v@.subrange(from as int, i as int));
        }
    }
    proof {
        assert(v@.subrange(from as int, i as int) =~= v@.skip(from as int));
    }
}

/// `base` joined with the characters of `p` from position `from` on (see
/// [`join_path`]).
fn join_from(base: &Vec<char>, p: &Vec<char>, from: usize) -> (r: String)
    requires
        from <= p@.len(),
    ensures
        r@ == join_path(base@, p@.skip(from as int)),
{
    let ghost q = p@.skip(from as int);
    let mut out: Vec<char> = Vec::new();
    let absolute = from < p.len() && p[from] == '/';
    if absolute || base.len() == 0 {
        append_chars(&mut out, p, from);
    } else {
        append_chars(&mut out, base, 0);
        if base[base.len() - 1] != '/' {
            out.push('/');
        }
        append_chars(&mut out, p, from);
    }
    proof {
        assert(base@.skip(0) =~= base@);
        assert(out@ =~= join_path(base@, q));
    }
    string_from_chars(&out)
}

/// `base` joined with `p` (see [`join_path`]).
pub fn join_paths(base: &str, p: &str) -> (r: String)
    ensures
        r@ == join_path(base@, p@),
{
    let b = crate::text::chars_of(base);
    let v = crate::text::chars_of(p);
    proof {
        assert(v@.skip(0) =~= v@);
    }
    join_from(&b, &v, 0)
}

fn lit(s: &str) -> (r: String)
    ensures
        r@ == s@,
{
    String::from_str(s)
}

/// The `Debug` text of a path.
pub uninterp spec fn path_debug(p: Seq<char>) -> Seq<char>;

/// `format!("{:?}")` of the path with this text: the text depends on the path alone.
#[verifier::external_body]
fn debug_path(p: &String) -> (r: String)
    ensures
        r@ == path_debug(p@),
{
    format!("{:?}", std::path::Path::new(p.as_str()))
}

/// Resolves EXTERNPROTO declarations.
pub struct ProtoResolver {
    options: ResolveOptions,
    /// The (canonical) paths of the files loaded so far.
    visited: Vec<String>,
    /// How many files are being loaded, one inside another.
    depth: usize,
}

/// The model of a list of paths.
pub open spec fn paths_view(v: Seq<String>) -> Seq<Seq<char>> {
    Seq::new(v.len(), |i: int| v[i]@)
}

/// What starting to load a file does: the circular-dependency and depth errors, or
/// success (and then the file counts as visited and the depth grows by one).
pub open spec fn begin_load_spec(visited: Seq<Seq<char>>, depth: usize, max_depth: usize, path: Seq<char>) -> Result<(), Seq<char>> {
    if visited.contains(path) {
        Err("Circular dependency detected: "@ + path_debug(path))
    } else if depth >= max_depth {
        Err("Maximum recursion depth ("@ + crate::writer::digits_text(max_depth as nat) + ") exceeded"@)
    } else {
        Ok(())
    }
}

/// Loading limits: a file is only started below the maximum depth, and once started it
/// is refused as a circular dependency whenever it is started again, at any depth.
pub proof fn lemma_begin_load_limits(visited: Seq<Seq<char>>, depth: usize, later_depth: usize, max_depth: usize, path: Seq<char>)
    requires
        begin_load_spec(visited, depth, max_depth, path) is Ok,
    ensures
        depth < max_depth,
        begin_load_spec(visited.push(path), later_depth, max_depth, path) == Err::<(), Seq<char>>(
            "Circular dependency detected: "@ + path_debug(path),
        ),
{
    assert(visited.push(path)[visited.len() as int] == path);
}

impl ProtoResolver {
    /// A resolver with the given options that has loaded nothing.
    pub fn new(options: ResolveOptions) -> (r: ProtoResolver)
        ensures
            r.options() == options,
            r.visited().len() == 0,
            r.depth() == 0,
    {
        ProtoResolver { options, visited: Vec::new(), depth: 0 }
    }

    pub closed spec fn options(&self) -> ResolveOptions {
        self.options
    }

    pub closed spec fn visited(&self) -> Seq<Seq<char>> {
        paths_view(self.visited@)
    }

    pub closed spec fn depth(&self) -> usize {
        self.depth
    }

    /// The options the resolver was made with.
    pub fn resolve_options(&self) -> (r: &ResolveOptions)
        ensures
            *r == self.options(),
    {
        &self.options
    }

    /// Where an EXTERNPROTO URL leads (see [`resolve_url_spec`]); relative paths are
    /// taken from `base_path`.
    pub fn resolve_url(&self, url: &str, base_path: &str) -> (r: Result<String, ProtoError>)
        ensures
            match (r, resolve_url_spec(
                url@,
                base_path@,
                match self.options().webots_projects_dir {
                    Some(d) => Some(d@),
                    None => None,
                },
            )) {
                (Ok(p), Ok(q)) => p@ == q,
                (Err(ProtoError::ParseError(m)), Err(q)) => m@ == q,
                _ => false,
            },
    {
        let u = crate::text::chars_of(url);
        let webots: Vec<char> = vec!['w', 'e', 'b', 'o', 't', 's', ':', '/', '/'];
        let https: Vec<char> = vec!['h', 't', 't', 'p', 's', ':', '/', '/'];
        let http: Vec<char> = vec!['h', 't', 't', 'p', ':', '/', '/'];
        proof {
            assert(webots@ =~= webots_scheme());
            assert(https@ =~= https_scheme());
            assert(http@ =~= http_scheme());
        }
        if has_prefix(&u, &webots) {
            match &self.options.webots_projects_dir {
                Some(dir) => {
                    let d = crate::text::chars_of(dir.as_str());
                    return Ok(join_from(&d, &u, 9));
                },
                None => {
                    let mut m = lit("webots:// URL '");
                    m.append(url);
                    m.append("' requires webots_projects_dir to be configured");
                    return Err(ProtoError::ParseError(m));
                },
            }
        }
        if has_prefix(&u, &https) || has_prefix(&u, &http) {
            let mut m = lit("Network URL '");
            m.append(url);
            m.append("' is not supported by the resolver");
            return Err(ProtoError::ParseError(m));
        }
        if u.len() > 0 && u[0] == '/' {
            return Ok(lit(url));
        }
        Ok(join_paths(base_path, url))
    }

    /// Starts loading the file at the canonical path `path`: refuses a file already
    /// loaded and a nesting deeper than the options allow; otherwise records the file
    /// and deepens the nesting.
    pub fn begin_load(&mut self, path: &String) -> (r: Result<(), ProtoError>)
        ensures
            final(self).options() == old(self).options(),
            match (r, begin_load_spec(old(self).visited(), old(self).depth(), old(self).options().max_depth, path@)) {
                (Ok(()), Ok(())) => final(self).visited() == old(self).visited().push(path@)
                    && final(self).depth() == old(self).depth() + 1,
                (Err(ProtoError::ParseError(m)), Err(q)) => m@ == q && final(self).visited() == old(self).visited()
                    && final(self).depth() == old(self).depth(),
                _ => false,
            },
    {
        let mut i: usize = 0;
        while i < self.visited.len()
            invariant
                i <= self.visited@.len(),
                forall|k: int| 0 <= k < i ==> #[trigger] paths_view(self.visited@)[k] != path@,
            decreases self.visited@.len() - i,
        {
            if self.visited[i].eq(path) {
                proof {
                    assert(paths_view(self.visited@)[i as int] == path@);
                }
                let mut m = lit("Circular dependency detected: ");
                m.append(debug_path(path).as_str());
                return Err(ProtoError::ParseError(m));
            }
            i = i + 1;
        }
        if self.depth >= self.options.max_depth {
            let mut digits: Vec<char> = Vec::new();
            crate::writer::push_digits(&mut digits, self.options.max_depth as u64);
            let mut m = lit("Maximum recursion depth (");
            m.append(string_from_chars(&digits).as_str());
            m.append(") exceeded");
            proof {
                assert(digits@ =~= crate::writer::digits_text(self.options.max_depth as nat));
            }
            return Err(ProtoError::ParseError(m));
        }
        // The depth never passes `max_depth`, which is a `usize`.
        self.visited.push(path.clone());
        self.depth = self.depth + 1;
        proof {
            assert(paths_view(self.visited@) =~= paths_view(old(self).visited@).push(path@));
        }
        Ok(())
    }

    /// Finishes loading a file that parsed: the nesting is one level shallower.
    pub fn finish_load(&mut self)
        requires
            old(self).depth() > 0,
        ensures
            final(self).options() == old(self).options(),
            final(self).visited() == old(self).visited(),
            final(self).depth() == old(self).depth() - 1,
    {
        self.depth = self.depth - 1;
    }
}

} // verus!
