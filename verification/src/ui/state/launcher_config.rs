//! JVM arguments for launching an application with LazyMVN's logging and
//! Spring Boot overrides.

use vstd::prelude::*;
use crate::strings::{chars_of, concat2, concat3, string_from_chars, str_equal};

verus! {

/// `s` with every backslash turned into a forward slash.
pub open spec fn with_forward_slashes(s: Seq<char>) -> Seq<char> {
    s.map_values(|c: char| if c == '\\' { '/' } else { c })
}

/// Convert file path to file:// URL: on Windows the separators become
/// forward slashes after `file:///`, elsewhere the path follows `file://`.
pub fn path_to_file_url(path: &str, windows: bool) -> (r: String)
    ensures
        r@ == (if windows {
            "file:///"@ + with_forward_slashes(path@)
        } else {
            "file://"@ + path@
        }),
{
    if windows {
        let cs = chars_of(path);
        let mut out: Vec<char> = Vec::new();
        let mut i: usize = 0;
        while i < cs.len()
            invariant
                i <= cs@.len(),
                cs@ == path@,
                out@ == with_forward_slashes(path@).take(i as int),
            decreases cs.len() - i,
        {
            let c = cs[i];
            if c == '\\' {
                out.push('/');
            } else {
                out.push(c);
            }
            assert(with_forward_slashes(path@).take(i + 1) =~= with_forward_slashes(path@).take(
                i as int,
            ).push(with_forward_slashes(path@)[i as int]));
            i += 1;
        }
        assert(with_forward_slashes(path@).take(cs@.len() as int) =~= with_forward_slashes(path@));
        concat2("file:///", string_from_chars(&out).as_str())
    } else {
        concat2("file://", path)
    }
}

/// The two logging arguments for one package and level: the Logback
/// (Spring Boot) level and the Log4j 1.x logger level.
pub open spec fn package_level_args(name: Seq<char>, level: Seq<char>) -> Seq<Seq<char>> {
    seq!["-Dlogging.level."@ + name + "="@ + level, "-Dlog4j.logger."@ + name + "="@ + level]
}

/// The logging arguments for the first `k` packages, in order.
pub open spec fn logging_args_upto(packages: Seq<(String, String)>, k: int) -> Seq<Seq<char>>
    decreases k,
{
    if k <= 0 {
        seq![]
    } else {
        logging_args_upto(packages, k - 1) + package_level_args(
            packages[k - 1].0@,
            packages[k - 1].1@,
        )
    }
}

/// Add Logback/Spring Boot logging level arguments, and Log4j 1.x logger
/// arguments for compatibility, for each configured package (name, level).
pub fn add_logback_logging_args(packages: &[(String, String)], jvm_args: &mut Vec<String>)
    ensures
        final(jvm_args)@.map_values(|a: String| a@) == old(jvm_args)@.map_values(|a: String| a@)
            + logging_args_upto(packages@, packages@.len() as int),
{
    let ghost start = jvm_args@.map_values(|a: String| a@);
    let mut i: usize = 0;
    while i < packages.len()
        invariant
            i <= packages@.len(),
            jvm_args@.map_values(|a: String| a@) == start + logging_args_upto(packages@, i as int),
        decreases packages.len() - i,
    {
        let name = packages[i].0.as_str();
        let level = packages[i].1.as_str();
        let logback = concat2(concat3("-Dlogging.level.", name, "=").as_str(), level);
        let log4j = concat2(concat3("-Dlog4j.logger.", name, "=").as_str(), level);
        let ghost before = jvm_args@.map_values(|a: String| a@);
        jvm_args.push(logback);
        jvm_args.push(log4j);
        assert(jvm_args@.map_values(|a: String| a@) =~= before + package_level_args(
            packages@[i as int].0@,
            packages@[i as int].1@,
        ));
        assert(start + logging_args_upto(packages@, i + 1) =~= start + logging_args_upto(
            packages@,
            i as int,
        ) + package_level_args(packages@[i as int].0@, packages@[i as int].1@));
        i += 1;
    }
}

/// Whether a property sets one of the two logging patterns.
pub open spec fn is_pattern_property(name: Seq<char>) -> bool {
    name == "logging.pattern.console"@ || name == "logging.pattern.file"@
}

/// The Spring properties without the logging pattern ones, among the
/// first `k`.
pub open spec fn without_patterns(props: Seq<(String, String)>, k: int) -> Seq<(Seq<char>, Seq<char>)>
    decreases k,
{
    if k <= 0 {
        seq![]
    } else {
        without_patterns(props, k - 1) + if is_pattern_property(props[k - 1].0@) {
            seq![]
        } else {
            seq![(props[k - 1].0@, props[k - 1].1@)]
        }
    }
}

/// The texts of a list of properties.
pub open spec fn property_texts(v: Seq<(String, String)>) -> Seq<(Seq<char>, Seq<char>)> {
    v.map_values(|p: (String, String)| (p.0@, p.1@))
}

/// The Spring properties with a configured log format: the pattern
/// properties of the `[spring]` section are replaced by both patterns set
/// to the format (the flag says so); without a format they are unchanged.
pub fn spring_properties_with_log_format(properties: Vec<(String, String)>, log_format: Option<&str>) -> (r: (Vec<(String, String)>, bool))
    ensures
        match log_format {
            Some(f) => {
                &&& property_texts(r.0@) == without_patterns(properties@, properties@.len() as int)
                    + seq![("logging.pattern.console"@, f@), ("logging.pattern.file"@, f@)]
                &&& r.1
            },
            None => property_texts(r.0@) == property_texts(properties@) && !r.1,
        },
{
    match log_format {
        None => (properties, false),
        Some(format) => {
            let mut kept: Vec<(String, String)> = Vec::new();
            let mut i: usize = 0;
            while i < properties.len()
                invariant
                    i <= properties@.len(),
                    property_texts(kept@) == without_patterns(properties@, i as int),
                decreases properties.len() - i,
            {
                let name = properties[i].0.as_str();
                let ghost before = property_texts(kept@);
                if !(str_equal(name, "logging.pattern.console") || str_equal(
                    name,
                    "logging.pattern.file",
                )) {
                    let entry = (properties[i].0.clone(), properties[i].1.clone());
                    kept.push(entry);
                    assert(property_texts(kept@) =~= before.push(
                        (properties@[i as int].0@, properties@[i as int].1@),
                    ));
                } else {
                    assert(before + seq![] =~= before);
                }
                i += 1;
            }
            let ghost base = property_texts(kept@);
            kept.push((String::from_str("logging.pattern.console"), String::from_str(format)));
            kept.push((String::from_str("logging.pattern.file"), String::from_str(format)));
            assert(property_texts(kept@) =~= base + seq![
                ("logging.pattern.console"@, format@),
                ("logging.pattern.file"@, format@),
            ]);
            (kept, true)
        },
    }
}

/// The argument pointing Log4j to its generated configuration.
pub fn log4j_config_arg(config_url: &str) -> (r: String)
    ensures
        r@ == "-Dlog4j.configuration="@ + config_url@,
{
    concat2("-Dlog4j.configuration=", config_url)
}

/// The argument adding the generated Spring Boot properties.
pub fn spring_config_arg(config_url: &str) -> (r: String)
    ensures
        r@ == "-Dspring.config.additional-location="@ + config_url@,
{
    concat2("-Dspring.config.additional-location=", config_url)
}

/// The arguments that stop Log4j configuring itself, so that the given
/// configuration is used.
pub open spec fn log4j_override_args() -> Seq<Seq<char>> {
    seq![
        "-Dlog4j.ignoreTCL=true"@,
        "-Dlog4j.defaultInitOverride=true"@,
        "-Dlog4j.configuratorClass=org.apache.log4j.PropertyConfigurator"@,
    ]
}

/// Build JVM arguments from logging and Spring configurations: with a Log4j
/// configuration, the agent's arguments, the overrides and the
/// configuration argument; then the logging levels of the packages; then
/// the Spring properties argument, if any.
pub fn build_jvm_args_for_launcher(
    agent_args: &[String],
    log4j_arg: Option<String>,
    packages: &[(String, String)],
    spring_arg: Option<String>,
) -> (r: Vec<String>)
    ensures
        r@.map_values(|a: String| a@) == (match log4j_arg {
            Some(l) => agent_args@.map_values(|a: String| a@) + log4j_override_args() + seq![l@],
            None => seq![],
        }) + logging_args_upto(packages@, packages@.len() as int) + (match spring_arg {
            Some(s) => seq![s@],
            None => seq![],
        }),
{
    let mut jvm_args: Vec<String> = Vec::new();
    if let Some(log4j) = log4j_arg {
        let mut i: usize = 0;
        while i < agent_args.len()
            invariant
                i <= agent_args@.len(),
                jvm_args@.map_values(|a: String| a@) == agent_args@.map_values(|a: String| a@).take(
                    i as int,
                ),
            decreases agent_args.len() - i,
        {
            let arg = agent_args[i].clone();
            jvm_args.push(arg);
            assert(agent_args@.map_values(|a: String| a@).take(i + 1) =~= agent_args@.map_values(
                |a: String| a@,
            ).take(i as int).push(agent_args@[i as int]@));
            assert(jvm_args@.map_values(|a: String| a@) =~= agent_args@.map_values(|a: String| a@).take(
                i as int,
            ).push(agent_args@[i as int]@));
            i += 1;
        }
        let ghost agents = jvm_args@.map_values(|a: String| a@);
        jvm_args.push(String::from_str("-Dlog4j.ignoreTCL=true"));
        jvm_args.push(String::from_str("-Dlog4j.defaultInitOverride=true"));
        jvm_args.push(
            String::from_str("-Dlog4j.configuratorClass=org.apache.log4j.PropertyConfigurator"),
        );
        let ghost l = log4j@;
        jvm_args.push(log4j);
        proof {
            assert(agent_args@.map_values(|a: String| a@).take(agent_args@.len() as int)
                =~= agent_args@.map_values(|a: String| a@));
            assert(jvm_args@.map_values(|a: String| a@) =~= agents + log4j_override_args() + seq![l]);
        }
    } else {
        assert(jvm_args@.map_values(|a: String| a@) =~= Seq::<Seq<char>>::empty());
    }
    add_logback_logging_args(packages, &mut jvm_args);
    if let Some(spring) = spring_arg {
        let ghost before = jvm_args@.map_values(|a: String| a@);
        let ghost sv = spring@;
        jvm_args.push(spring);
        assert(jvm_args@.map_values(|a: String| a@) =~= before.push(sv));
    }
    jvm_args
}

/// Whether a Log4j configuration is generated: only when some package level
/// or a log format is configured.
pub fn needs_log4j_config(package_count: usize, has_log_format: bool) -> (b: bool)
    ensures
        b == (package_count > 0 || has_log_format),
{
    package_count > 0 || has_log_format
}

} // verus!
