//! Running a Spring Boot starter: the label it is cached under and the Maven
//! arguments that run it.

use vstd::prelude::*;
use crate::strings::{concat2, texts};
use crate::ui::panes::popups::{last_dot, starter_name_parts};

verus! {

/// The label a starter is cached under: its class's simple name, the part
/// of `fqcn` after the last `.` (all of it when there is none).
pub fn starter_label(fqcn: &str) -> (r: String)
    ensures
        r@ == match last_dot(fqcn@) {
            Some(i) => fqcn@.subrange(i + 1, fqcn@.len() as int),
            None => fqcn@,
        },
{
    let (_, class_name) = starter_name_parts(fqcn);
    class_name
}

/// The Maven arguments that run the starter `fqcn`:
/// `spring-boot:run -Dspring-boot.run.main-class=<fqcn>`.
pub fn spring_boot_run_args(fqcn: &str) -> (r: Vec<String>)
    ensures
        texts(r@) == seq!["spring-boot:run"@, "-Dspring-boot.run.main-class="@ + fqcn@],
{
    let mut r: Vec<String> = Vec::new();
    r.push(String::from_str("spring-boot:run"));
    r.push(concat2("-Dspring-boot.run.main-class=", fqcn));
    assert(texts(r@) =~= seq![r@[0]@, r@[1]@]);
    r
}

} // verus!
