//! The command line that runs a shell command in the build container.
use crate::text::{decimal, decimal_digits, push_chars, push_str};
use vstd::prelude::*;

verus! {

/// The program that runs containers.
pub const DOCKER_BIN: &'static str = "docker";

/// A host volume mapped into the container.
#[derive(Clone, Debug)]
pub struct Volume {
    pub volume: String,
    pub container: String,
}

/// A host port mapped into the container.
#[derive(Clone, Copy, Debug)]
pub struct Port {
    pub host: usize,
    pub container: usize,
}

/// How to run a shell command in a container.
#[derive(Clone, Debug)]
pub struct DockerCommand {
    pub bin: String,
    pub uid: u32,
    pub gid: u32,
    pub user: String,
    pub docker_image: String,
    pub code_path: String,
    pub patch_cargo_cache: bool,
    pub fix_permission_files: Vec<String>,
    pub mapping_ports: Vec<Port>,
    pub mapping_volumes: Vec<Volume>,
    pub host_network: bool,
    pub name: Option<String>,
    pub daemon: bool,
    pub tty: bool,
    pub workdir: String,
    /// Variables passed on from the host's environment, where set there.
    pub inherited_env: Vec<String>,
    /// Variables set in the container, in order.
    pub custom_env: Vec<(String, String)>,
}

impl DockerCommand {
    /// A command for `docker_image` with the project at `code_path`, run as
    /// the host user `user` (`uid`, `gid`).
    pub fn with_config(
        docker_image: String,
        code_path: String,
        custom_env: Vec<(String, String)>,
        uid: u32,
        gid: u32,
        user: String,
    ) -> (r: DockerCommand)
        ensures
            r.bin@ == DOCKER_BIN@,
            r.uid == uid,
            r.gid == gid,
            r.user == user,
            r.docker_image == docker_image,
            r.code_path == code_path,
            r.patch_cargo_cache,
            r.fix_permission_files@.len() == 0,
            r.mapping_ports@.len() == 0,
            r.mapping_volumes@.len() == 0,
            !r.host_network,
            r.name is None,
            !r.daemon,
            !r.tty,
            r.workdir@ == "/code"@,
            string_seq(r.inherited_env@) == seq!["HTTP_PROXY"@, "HTTPS_PROXY"@, "ALL_PROXY"@],
            r.custom_env == custom_env,
    {
        let mut inherited_env: Vec<String> = Vec::new();
        inherited_env.push(String::from_str("HTTP_PROXY"));
        inherited_env.push(String::from_str("HTTPS_PROXY"));
        inherited_env.push(String::from_str("ALL_PROXY"));
        assert(string_seq(inherited_env@) =~= seq!["HTTP_PROXY"@, "HTTPS_PROXY"@, "ALL_PROXY"@]);
        DockerCommand {
            bin: String::from_str(DOCKER_BIN),
            uid,
            gid,
            user,
            docker_image,
            code_path,
            patch_cargo_cache: true,
            fix_permission_files: Vec::new(),
            mapping_ports: Vec::new(),
            mapping_volumes: Vec::new(),
            host_network: false,
            name: None,
            daemon: false,
            tty: false,
            workdir: String::from_str("/code"),
            inherited_env,
            custom_env,
        }
    }

    /// Runs the container on the host's network, or not.
    pub fn host_network(self, enable: bool) -> (r: DockerCommand)
        ensures
            r == (DockerCommand { host_network: enable, ..self }),
    {
        let mut s = self;
        s.host_network = enable;
        s
    }

    /// Names the container.
    pub fn name(self, name: String) -> (r: DockerCommand)
        ensures
            r == (DockerCommand { name: Some(name), ..self }),
    {
        let mut s = self;
        s.name = Some(name);
        s
    }

    /// Runs the container in the background, or not.
    pub fn daemon(self, daemon: bool) -> (r: DockerCommand)
        ensures
            r == (DockerCommand { daemon, ..self }),
    {
        let mut s = self;
        s.daemon = daemon;
        s
    }

    /// Gives the container a terminal, or not.
    pub fn tty(self, tty: bool) -> (r: DockerCommand)
        ensures
            r == (DockerCommand { tty, ..self }),
    {
        let mut s = self;
        s.tty = tty;
        s
    }

    /// Sets the directory the command runs in, inside the container.
    pub fn workdir(self, dir: String) -> (r: DockerCommand)
        ensures
            r == (DockerCommand { workdir: dir, ..self }),
    {
        let mut s = self;
        s.workdir = dir;
        s
    }

    /// Hands `dir` back to the host user once the command ends.
    pub fn fix_dir_permission(self, dir: String) -> (r: DockerCommand)
        ensures
            r.fix_permission_files@ == self.fix_permission_files@.push(dir),
            r == (DockerCommand { fix_permission_files: r.fix_permission_files, ..self }),
    {
        let mut s = self;
        s.fix_permission_files.push(dir);
        s
    }

    /// Maps the host volume `volume` to `container`.
    pub fn map_volume(self, volume: String, container: String) -> (r: DockerCommand)
        ensures
            r.mapping_volumes@ == self.mapping_volumes@.push(Volume { volume, container }),
            r == (DockerCommand { mapping_volumes: r.mapping_volumes, ..self }),
    {
        let mut s = self;
        s.mapping_volumes.push(Volume { volume, container });
        s
    }
}

pub open spec fn string_seq(v: Seq<String>) -> Seq<Seq<char>> {
    v.map_values(|x: String| x@)
}

/// `-v<volume>:<container>`.
pub open spec fn volume_arg(volume: Seq<char>, container: Seq<char>) -> Seq<char> {
    "-v"@ + volume + ":"@ + container
}

/// The arguments that map volumes: the command's own, then the shared cargo
/// cache where asked for.
pub open spec fn volume_args(c: DockerCommand) -> Seq<Seq<char>> {
    Seq::new(c.mapping_volumes@.len(), |k: int| volume_arg(c.mapping_volumes@[k].volume@, c.mapping_volumes@[k].container@))
        + if c.patch_cargo_cache {
        seq![volume_arg("capsule-cache"@, "/root/.cargo"@)]
    } else {
        Seq::empty()
    }
}

/// The arguments that map ports: `-p<host>:<container>`.
pub open spec fn port_args(c: DockerCommand) -> Seq<Seq<char>> {
    Seq::new(c.mapping_ports@.len(), |k: int| "-p"@ + decimal(c.mapping_ports@[k].host as nat) + ":"@ + decimal(c.mapping_ports@[k].container as nat))
}

/// `-e<key>:<value>`.
pub open spec fn env_arg(key: Seq<char>, value: Seq<char>) -> Seq<char> {
    "-e"@ + key + ":"@ + value
}

/// The arguments that pass variables on from the host, for those set there:
/// `values[k]` is the host's value of the `k`-th inherited variable.
pub open spec fn inherited_args(keys: Seq<String>, values: Seq<Option<String>>) -> Seq<Seq<char>>
    decreases keys.len(),
{
    if keys.len() == 0 || values.len() < keys.len() {
        Seq::empty()
    } else {
        let k = keys.len() - 1;
        let prev = inherited_args(keys.drop_last(), values);
        match values[k] {
            Some(v) => prev.push(env_arg(keys[k]@, v@)),
            None => prev,
        }
    }
}

/// The arguments of the flags that are set.
pub open spec fn flag_args(c: DockerCommand) -> Seq<Seq<char>> {
    (if c.host_network { seq!["--network"@, "host"@] } else { Seq::empty() }) + match c.name {
        Some(n) => seq!["--name"@, n@],
        None => Seq::empty(),
    } + (if c.daemon { seq!["-d"@] } else { Seq::empty() }) + (if c.tty { seq!["-it"@] } else { Seq::empty() })
}

/// The step that hands `f` back to the host user.
pub open spec fn fix_step(f: Seq<char>) -> Seq<char> {
    "; test -f "@ + f + " -o -d "@ + f + " && chown -R $UID:$GID "@ + f
}

pub open spec fn fix_steps(files: Seq<String>) -> Seq<char>
    decreases files.len(),
{
    if files.len() == 0 {
        Seq::empty()
    } else {
        fix_steps(files.drop_last()) + fix_step(files.last()@)
    }
}

/// The shell command run in the container: `shell_cmd`, then, keeping its
/// exit code, the steps that hand files back to the host user.
pub open spec fn script_of(c: DockerCommand, shell_cmd: Seq<char>) -> Seq<char> {
    shell_cmd + "; EXITCODE=$?"@ + fix_steps(c.fix_permission_files@) + "; exit $EXITCODE"@
}

/// All the arguments of the run command.
pub open spec fn run_args(c: DockerCommand, shell_cmd: Seq<char>, env_values: Seq<Option<String>>) -> Seq<Seq<char>> {
    seq![
        "run"@,
        "-eUID="@ + decimal(c.uid as nat),
        "-eGID="@ + decimal(c.gid as nat),
        "-eUSER="@ + c.user@,
        "--rm"@,
        "-v"@ + c.code_path@ + ":/code"@,
        "-w"@ + c.workdir@,
    ] + volume_args(c) + port_args(c) + inherited_args(c.inherited_env@, env_values)
        + Seq::new(c.custom_env@.len(), |k: int| env_arg(c.custom_env@[k].0@, c.custom_env@[k].1@))
        + flag_args(c) + seq![c.docker_image@, "bash"@, "-c"@, script_of(c, shell_cmd)]
}

fn text(parts: &str) -> (r: String)
    ensures
        r@ == parts@,
{
    String::from_str(parts)
}

fn text2(a: &str, b: &String) -> (r: String)
    ensures
        r@ == a@ + b@,
{
    let mut s = String::from_str(a);
    push_str(&mut s, b.as_str());
    s
}

fn text_num(a: &str, n: u64) -> (r: String)
    ensures
        r@ == a@ + decimal(n as nat),
{
    let mut s = String::from_str(a);
    push_chars(&mut s, &decimal_digits(n));
    s
}

fn pair_arg(flag: &str, a: &String, b: &String) -> (r: String)
    ensures
        r@ == flag@ + a@ + ":"@ + b@,
{
    let mut s = String::from_str(flag);
    push_str(&mut s, a.as_str());
    push_str(&mut s, ":");
    push_str(&mut s, b.as_str());
    s
}

pub open spec fn arg_views(v: Seq<String>) -> Seq<Seq<char>> {
    v.map_values(|x: String| x@)
}

fn push_arg(args: &mut Vec<String>, a: String)
    ensures
        arg_views(final(args)@) == arg_views(old(args)@).push(a@),
{
    args.push(a);
    assert(arg_views(args@) =~= arg_views(old(args)@).push(a@));
}

impl DockerCommand {
    fn push_volume_args(&self, args: &mut Vec<String>)
        ensures
            arg_views(final(args)@) == arg_views(old(args)@) + volume_args(*self),
    {
        let ghost head = arg_views(args@);
        let mut k: usize = 0;
        while k < self.mapping_volumes.len()
            invariant
                k <= self.mapping_volumes@.len(),
                arg_views(args@) == head + Seq::new(k as nat, |q: int| volume_arg(self.mapping_volumes@[q].volume@, self.mapping_volumes@[q].container@)),
            decreases self.mapping_volumes@.len() - k,
        {
            let m = &self.mapping_volumes[k];
            push_arg(args, pair_arg("-v", &m.volume, &m.container));
            assert(Seq::new(k as nat + 1, |q: int| volume_arg(self.mapping_volumes@[q].volume@, self.mapping_volumes@[q].container@))
                =~= Seq::new(k as nat, |q: int| volume_arg(self.mapping_volumes@[q].volume@, self.mapping_volumes@[q].container@)).push(volume_arg(m.volume@, m.container@)));
            k = k + 1;
        }
        if self.patch_cargo_cache {
            push_arg(args, pair_arg("-v", &text("capsule-cache"), &text("/root/.cargo")));
        }
        assert(arg_views(args@) =~= head + volume_args(*self));
    }

    fn push_port_args(&self, args: &mut Vec<String>)
        ensures
            arg_views(final(args)@) == arg_views(old(args)@) + port_args(*self),
    {
        let ghost head = arg_views(args@);
        let mut k: usize = 0;
        while k < self.mapping_ports.len()
            invariant
                k <= self.mapping_ports@.len(),
                arg_views(args@) == head + Seq::new(k as nat, |q: int| "-p"@ + decimal(self.mapping_ports@[q].host as nat) + ":"@ + decimal(self.mapping_ports@[q].container as nat)),
            decreases self.mapping_ports@.len() - k,
        {
            let p = self.mapping_ports[k];
            let mut a = text_num("-p", p.host as u64);
            push_str(&mut a, ":");
            push_chars(&mut a, &decimal_digits(p.container as u64));
            push_arg(args, a);
            assert(Seq::new(k as nat + 1, |q: int| "-p"@ + decimal(self.mapping_ports@[q].host as nat) + ":"@ + decimal(self.mapping_ports@[q].container as nat))
                =~= Seq::new(k as nat, |q: int| "-p"@ + decimal(self.mapping_ports@[q].host as nat) + ":"@ + decimal(self.mapping_ports@[q].container as nat)).push(a@));
            k = k + 1;
        }
        assert(arg_views(args@) =~= head + port_args(*self));
    }

    fn push_env_args(&self, args: &mut Vec<String>, env_values: &Vec<Option<String>>)
        requires
            env_values@.len() == self.inherited_env@.len(),
        ensures
            arg_views(final(args)@) == arg_views(old(args)@) + inherited_args(self.inherited_env@, env_values@)
                + Seq::new(self.custom_env@.len(), |k: int| env_arg(self.custom_env@[k].0@, self.custom_env@[k].1@)),
    {
        let ghost head = arg_views(args@);
        let mut k: usize = 0;
        while k < self.inherited_env.len()
            invariant
                k <= self.inherited_env@.len(),
                env_values@.len() == self.inherited_env@.len(),
                arg_views(args@) == head + inherited_args(self.inherited_env@.subrange(0, k as int), env_values@),
            decreases self.inherited_env@.len() - k,
        {
            let ghost sub = self.inherited_env@.subrange(0, k as int + 1);
            assert(sub.drop_last() == self.inherited_env@.subrange(0, k as int));
            let ghost before = arg_views(args@);
            match &env_values[k] {
                Some(value) => {
                    push_arg(args, pair_arg("-e", &self.inherited_env[k], value));
                },
                None => {},
            }
            assert(arg_views(args@) =~= head + inherited_args(sub, env_values@));
            k = k + 1;
        }
        assert(self.inherited_env@.subrange(0, self.inherited_env@.len() as int) == self.inherited_env@);
        let ghost mid = arg_views(args@);
        let mut k: usize = 0;
        while k < self.custom_env.len()
            invariant
                k <= self.custom_env@.len(),
                arg_views(args@) == mid + Seq::new(k as nat, |q: int| env_arg(self.custom_env@[q].0@, self.custom_env@[q].1@)),
            decreases self.custom_env@.len() - k,
        {
            let e = &self.custom_env[k];
            push_arg(args, pair_arg("-e", &e.0, &e.1));
            assert(Seq::new(k as nat + 1, |q: int| env_arg(self.custom_env@[q].0@, self.custom_env@[q].1@))
                =~= Seq::new(k as nat, |q: int| env_arg(self.custom_env@[q].0@, self.custom_env@[q].1@)).push(env_arg(e.0@, e.1@)));
            k = k + 1;
        }
        assert(arg_views(args@) =~= head + inherited_args(self.inherited_env@, env_values@)
            + Seq::new(self.custom_env@.len(), |k: int| env_arg(self.custom_env@[k].0@, self.custom_env@[k].1@)));
    }

    fn push_flag_args(&self, args: &mut Vec<String>)
        ensures
            arg_views(final(args)@) == arg_views(old(args)@) + flag_args(*self),
    {
        let ghost head = arg_views(args@);
        if self.host_network {
            push_arg(args, text("--network"));
            push_arg(args, text("host"));
        }
        let ghost a1 = arg_views(args@);
        match &self.name {
            Some(n) => {
                push_arg(args, text("--name"));
                push_arg(args, n.clone());
            },
            None => {},
        }
        let ghost a2 = arg_views(args@);
        if self.daemon {
            push_arg(args, text("-d"));
        }
        let ghost a3 = arg_views(args@);
        if self.tty {
            push_arg(args, text("-it"));
        }
        assert(a1 =~= head + (if self.host_network { seq!["--network"@, "host"@] } else { Seq::<Seq<char>>::empty() }));
        assert(arg_views(args@) =~= head + flag_args(*self));
    }

    /// The shell command run in the container.
    fn script(&self, shell_cmd: String) -> (r: String)
        ensures
            r@ == script_of(*self, shell_cmd@),
    {
        let mut script = shell_cmd;
        let ghost cmd0 = script@;
        push_str(&mut script, "; EXITCODE=$?");
        let ghost base = script@;
        let mut k: usize = 0;
        while k < self.fix_permission_files.len()
            invariant
                k <= self.fix_permission_files@.len(),
                script@ == base + fix_steps(self.fix_permission_files@.subrange(0, k as int)),
            decreases self.fix_permission_files@.len() - k,
        {
            let f = &self.fix_permission_files[k];
            push_str(&mut script, "; test -f ");
            push_str(&mut script, f.as_str());
            push_str(&mut script, " -o -d ");
            push_str(&mut script, f.as_str());
            push_str(&mut script, " && chown -R $UID:$GID ");
            push_str(&mut script, f.as_str());
            let ghost sub = self.fix_permission_files@.subrange(0, k as int + 1);
            assert(sub.drop_last() == self.fix_permission_files@.subrange(0, k as int));
            assert(script@ =~= base + fix_steps(sub));
            k = k + 1;
        }
        assert(self.fix_permission_files@.subrange(0, self.fix_permission_files@.len() as int) == self.fix_permission_files@);
        push_str(&mut script, "; exit $EXITCODE");
        assert(script@ =~= script_of(*self, cmd0));
        script
    }

    /// The program and the arguments that run `shell_cmd` in the container;
    /// `env_values[k]` is the host's value, where set, of the `k`-th
    /// inherited variable.
    pub fn build(&self, shell_cmd: String, env_values: &Vec<Option<String>>) -> (r: (String, Vec<String>))
        requires
            env_values@.len() == self.inherited_env@.len(),
        ensures
            r.0@ == self.bin@,
            arg_views(r.1@) == run_args(*self, shell_cmd@, env_values@),
    {
        let mut args: Vec<String> = Vec::new();
        push_arg(&mut args, text("run"));
        push_arg(&mut args, text_num("-eUID=", self.uid as u64));
        push_arg(&mut args, text_num("-eGID=", self.gid as u64));
        push_arg(&mut args, text2("-eUSER=", &self.user));
        push_arg(&mut args, text("--rm"));
        let mut v = text2("-v", &self.code_path);
        push_str(&mut v, ":/code");
        push_arg(&mut args, v);
        push_arg(&mut args, text2("-w", &self.workdir));
        let ghost head = arg_views(args@);
        self.push_volume_args(&mut args);
        self.push_port_args(&mut args);
        self.push_env_args(&mut args, env_values);
        self.push_flag_args(&mut args);
        let ghost body = arg_views(args@);
        let script = self.script(shell_cmd);
        push_arg(&mut args, self.docker_image.clone());
        push_arg(&mut args, text("bash"));
        push_arg(&mut args, text("-c"));
        push_arg(&mut args, script);
        assert(arg_views(args@) =~= run_args(*self, shell_cmd@, env_values@));
        (self.bin.clone(), args)
    }
}

} // verus!
