//! Audit overlay badge: a small floating badge injected into pages during
//! development builds, showing the number of findings of the page; it
//! expands into a panel listing them with a link to the full report.

use vstd::prelude::*;
use crate::build::audit::{
    category_name, severity_color, severity_name, AuditReport, Category, Finding, Severity,
};
use crate::text::{ascii_lower, chars_of, decimal, decimal_string, push_char, push_chars, string_of, sub_chars};

verus! {

/// The color of the badge when nothing is found.
pub const COLOR_SUCCESS: &'static str = "#16a34a";

/// The stylesheet of the overlay.
pub const OVERLAY_STYLE: &'static str = r##"<style>
.__eigen_audit_badge {
  position: fixed;
  bottom: 16px;
  right: 16px;
  z-index: 999999;
  padding: 6px 14px;
  border-radius: 20px;
  color: #fff;
  font: bold 13px/1 system-ui, sans-serif;
  cursor: pointer;
  box-shadow: 0 2px 8px rgba(0,0,0,0.25);
  user-select: none;
  transition: opacity 0.15s;
}
.__eigen_audit_badge:hover { opacity: 0.85; }
.__eigen_audit_panel {
  display: none;
  position: fixed;
  bottom: 52px;
  right: 16px;
  z-index: 999998;
  width: 380px;
  max-height: 60vh;
  overflow-y: auto;
  background: #1e1e2e;
  color: #cdd6f4;
  border-radius: 10px;
  box-shadow: 0 4px 24px rgba(0,0,0,0.4);
  font: 13px/1.5 system-ui, sans-serif;
  padding: 0;
}
.__eigen_audit_panel_open { display: block; }
.__eigen_audit_panel_header {
  display: flex;
  justify-content: space-between;
  align-items: center;
  padding: 12px 16px;
  border-bottom: 1px solid #313244;
  font-weight: bold;
  font-size: 14px;
}
.__eigen_audit_panel_header a {
  color: #89b4fa;
  text-decoration: none;
  font-size: 12px;
}
.__eigen_audit_panel_header a:hover { text-decoration: underline; }
.__eigen_audit_panel_list {
  list-style: none;
  margin: 0;
  padding: 8px 0;
}
.__eigen_audit_panel_item {
  padding: 8px 16px;
  border-bottom: 1px solid #313244;
}
.__eigen_audit_panel_item:last-child { border-bottom: none; }
.__eigen_audit_sev_badge {
  display: inline-block;
  padding: 1px 6px;
  border-radius: 4px;
  color: #fff;
  font-size: 10px;
  font-weight: bold;
  margin-right: 6px;
  vertical-align: middle;
}
.__eigen_audit_msg {
  display: block;
  margin-top: 2px;
  color: #a6adc8;
  font-size: 12px;
}
</style>
"##;

/// The script of the overlay up to the findings array.
pub const OVERLAY_SCRIPT_START: &'static str = r##"<script>
(function() {
  var findings = "##;

/// The script of the overlay between the findings array and the badge
/// color.
pub const OVERLAY_SCRIPT_COLOR: &'static str = r##";
  var badge = document.createElement("div");
  badge.className = "__eigen_audit_badge";
  badge.style.background = ""##;

/// The script of the overlay between the badge color and its label.
pub const OVERLAY_SCRIPT_LABEL: &'static str = r##"";
  badge.textContent = ""##;

/// The rest of the overlay script after the label.
pub const OVERLAY_SCRIPT_END: &'static str = r##"";
  document.body.appendChild(badge);

  var panel = document.createElement("div");
  panel.className = "__eigen_audit_panel";

  var header = document.createElement("div");
  header.className = "__eigen_audit_panel_header";
  var title = document.createElement("span");
  title.textContent = "Audit Findings";
  var link = document.createElement("a");
  link.href = "/_audit";
  link.textContent = "Full Report \u2192";
  header.appendChild(title);
  header.appendChild(link);
  panel.appendChild(header);

  if (findings.length === 0) {
    var empty = document.createElement("div");
    empty.style.cssText = "padding:16px;text-align:center;color:#a6adc8";
    empty.textContent = "No issues found on this page.";
    panel.appendChild(empty);
  } else {
    var list = document.createElement("ul");
    list.className = "__eigen_audit_panel_list";
    for (var i = 0; i < findings.length; i++) {
      var f = findings[i];
      var li = document.createElement("li");
      li.className = "__eigen_audit_panel_item";
      var sev = document.createElement("span");
      sev.className = "__eigen_audit_sev_badge";
      sev.style.background = f.severityColor;
      sev.textContent = f.severity;
      li.appendChild(sev);
      var idEl = document.createElement("strong");
      idEl.textContent = f.id;
      li.appendChild(idEl);
      var msg = document.createElement("span");
      msg.className = "__eigen_audit_msg";
      msg.textContent = f.message;
      li.appendChild(msg);
      list.appendChild(li);
    }
    panel.appendChild(list);
  }

  document.body.appendChild(panel);

  var KEY = "__eigen_audit_panel_open";
  if (localStorage.getItem(KEY) === "true") {
    panel.classList.add("__eigen_audit_panel_open");
  }

  badge.addEventListener("click", function() {
    var open = panel.classList.toggle("__eigen_audit_panel_open");
    localStorage.setItem(KEY, open ? "true" : "false");
  });
})();
</script>"##;

/// Some finding of `fs` has severity `s`.
pub open spec fn has_severity(fs: Seq<Finding>, s: Severity) -> bool {
    exists|i: int| 0 <= i < fs.len() && #[trigger] fs[i].severity == s
}

/// The badge color: that of the worst severity present, green when
/// there is no finding.
pub open spec fn badge_color_of(fs: Seq<Finding>) -> Seq<char> {
    if has_severity(fs, Severity::Critical) {
        severity_color(Severity::Critical)
    } else if has_severity(fs, Severity::High) {
        severity_color(Severity::High)
    } else if has_severity(fs, Severity::Medium) {
        severity_color(Severity::Medium)
    } else if has_severity(fs, Severity::Low) {
        severity_color(Severity::Low)
    } else {
        COLOR_SUCCESS@
    }
}

/// Whether some finding of `fs` has severity `s`.
fn any_severity(fs: &[Finding], s: Severity) -> (r: bool)
    ensures
        r == has_severity(fs@, s),
{
    let mut i: usize = 0;
    while i < fs.len()
        invariant
            i <= fs@.len(),
            forall|j: int| 0 <= j < i ==> fs@[j].severity != s,
        decreases fs@.len() - i,
    {
        if fs[i].severity == s {
            return true;
        }
        i = i + 1;
    }
    false
}

/// Determine the badge background color from the worst severity present.
pub fn badge_color(findings: &[Finding]) -> (r: &'static str)
    ensures
        r@ == badge_color_of(findings@),
{
    if any_severity(findings, Severity::Critical) {
        Severity::Critical.color()
    } else if any_severity(findings, Severity::High) {
        Severity::High.color()
    } else if any_severity(findings, Severity::Medium) {
        Severity::Medium.color()
    } else if any_severity(findings, Severity::Low) {
        Severity::Low.color()
    } else {
        COLOR_SUCCESS
    }
}

/// The escape of one character inside a JSON string in a script.
pub open spec fn json_esc_char(c: char) -> Seq<char> {
    if c == '\\' {
        "\\\\"@
    } else if c == '"' {
        "\\\""@
    } else if c == '<' {
        "\\u003c"@
    } else if c == '>' {
        "\\u003e"@
    } else {
        seq![c]
    }
}

/// `s` escaped for a JSON string inside a script.
pub open spec fn json_escaped(s: Seq<char>) -> Seq<char>
    decreases s.len(),
{
    if s.len() == 0 {
        seq![]
    } else {
        json_escaped(s.drop_last()) + json_esc_char(s.last())
    }
}

/// Escape backslashes, quotes and angle brackets for a JSON string inside
/// a script.
fn json_escape(s: &str) -> (r: String)
    ensures
        r@ == json_escaped(s@),
{
    let v = chars_of(s);
    let mut out = String::new();
    let mut i: usize = 0;
    while i < v.len()
        invariant
            i <= v@.len(),
            out@ == json_escaped(v@.subrange(0, i as int)),
        decreases v@.len() - i,
    {
        let c = v[i];
        if c == '\\' {
            out.append("\\\\");
        } else if c == '"' {
            out.append("\\\"");
        } else if c == '<' {
            out.append("\\u003c");
        } else if c == '>' {
            out.append("\\u003e");
        } else {
            push_char(&mut out, c);
        }
        assert(v@.subrange(0, i + 1).drop_last() =~= v@.subrange(0, i as int));
        i = i + 1;
    }
    assert(v@.subrange(0, v@.len() as int) =~= v@);
    out
}

/// The JSON object of one finding.
pub open spec fn finding_json(f: Finding) -> Seq<char> {
    "{\"id\":\""@ + f.id@ + "\",\"severity\":\""@ + severity_name(f.severity) + "\",\"severityColor\":\""@
        + severity_color(f.severity) + "\",\"category\":\""@ + category_name(f.category) + "\",\"message\":\""@
        + json_escaped(f.message@) + "\",\"fix\":\""@ + json_escaped(f.fix.instruction@) + "\"}"@
}

/// The JSON objects of the findings, comma separated.
pub open spec fn findings_json_items(fs: Seq<Finding>) -> Seq<char>
    decreases fs.len(),
{
    if fs.len() == 0 {
        seq![]
    } else if fs.len() == 1 {
        finding_json(fs[0])
    } else {
        findings_json_items(fs.drop_last()) + seq![','] + finding_json(fs.last())
    }
}

/// The badge label.
pub open spec fn badge_label(n: nat) -> Seq<char> {
    if n == 1 {
        "1 issue"@
    } else {
        decimal(n) + " issues"@
    }
}

/// The overlay snippet (style and script) for the findings of a page.
pub open spec fn overlay_snippet(fs: Seq<Finding>) -> Seq<char> {
    OVERLAY_STYLE@ + OVERLAY_SCRIPT_START@ + seq!['['] + findings_json_items(fs) + seq![']'] + OVERLAY_SCRIPT_COLOR@
        + badge_color_of(fs) + OVERLAY_SCRIPT_LABEL@ + badge_label(fs.len()) + OVERLAY_SCRIPT_END@
}

/// Append the JSON object of `f` to `out`, after a comma when `comma`.
fn push_finding_json(out: &mut String, f: &Finding, comma: bool)
    ensures
        final(out)@ == old(out)@ + (if comma { seq![','] } else { seq![] }) + finding_json(*f),
{
    if comma {
        push_char(out, ',');
    }
    out.append("{\"id\":\"");
    out.append(f.id);
    out.append("\",\"severity\":\"");
    out.append(f.severity.display_name());
    out.append("\",\"severityColor\":\"");
    out.append(f.severity.color());
    out.append("\",\"category\":\"");
    out.append(f.category.display_name());
    out.append("\",\"message\":\"");
    let m = json_escape(f.message.as_str());
    out.append(m.as_str());
    out.append("\",\"fix\":\"");
    let x = json_escape(f.fix.instruction.as_str());
    out.append(x.as_str());
    out.append("\"}");
}

/// Generate the overlay HTML snippet (styles and script) for the findings
/// of a page.
pub fn generate_overlay_script(findings: &[Finding]) -> (r: String)
    ensures
        r@ == overlay_snippet(findings@),
{
    let count = findings.len();
    let color = badge_color(findings);
    let label = if count == 1 {
        crate::text::owned("1 issue")
    } else {
        let mut s = decimal_string(count as u64);
        s.append(" issues");
        s
    };
    let mut json = String::new();
    let mut i: usize = 0;
    while i < findings.len()
        invariant
            i <= findings@.len(),
            json@ == findings_json_items(findings@.subrange(0, i as int)),
        decreases findings@.len() - i,
    {
        assert(findings@.subrange(0, i + 1).drop_last() =~= findings@.subrange(0, i as int));
        assert(findings@.subrange(0, i + 1).last() == findings@[i as int]);
        proof {
            if i == 0 {
                assert(findings@.subrange(0, 1)[0] == findings@[0]);
            }
        }
        push_finding_json(&mut json, &findings[i], i > 0);
        i = i + 1;
    }
    assert(findings@.subrange(0, findings@.len() as int) =~= findings@);
    let mut out = crate::text::owned(OVERLAY_STYLE);
    out.append(OVERLAY_SCRIPT_START);
    push_char(&mut out, '[');
    out.append(json.as_str());
    push_char(&mut out, ']');
    out.append(OVERLAY_SCRIPT_COLOR);
    out.append(color);
    out.append(OVERLAY_SCRIPT_LABEL);
    out.append(label.as_str());
    out.append(OVERLAY_SCRIPT_END);
    out
}

/// `</body>` occurs at `i`, in any ASCII case.
pub open spec fn body_close_at(s: Seq<char>, i: int) -> bool {
    0 <= i && i + 7 <= s.len() && ascii_lower(s.subrange(i, i + 7)) == "</body>"@
}

/// The last position of `</body>` (any ASCII case) at or before `i`.
pub open spec fn last_body_close(s: Seq<char>, i: int) -> Option<int>
    decreases i + 1,
{
    if i < 0 {
        None
    } else if body_close_at(s, i) {
        Some(i)
    } else {
        last_body_close(s, i - 1)
    }
}

/// The page with the overlay: inserted on its own line before the last
/// `</body>` (matched without case), or appended when there is none.
pub open spec fn with_overlay(html: Seq<char>, fs: Seq<Finding>) -> Seq<char> {
    match last_body_close(html, html.len() - 7) {
        Some(p) => html.subrange(0, p) + seq!['\n'] + overlay_snippet(fs) + seq!['\n'] + html.subrange(p, html.len() as int),
        None => html + seq!['\n'] + overlay_snippet(fs),
    }
}

/// Whether `</body>` occurs at `i` in any ASCII case.
fn body_close_at_exec(v: &[char], i: usize) -> (r: bool)
    ensures
        r == body_close_at(v@, i as int),
{
    let vlen = v.len();
    if i > vlen || vlen - i < 7 {
        return false;
    }
    let target = ['<', '/', 'b', 'o', 'd', 'y', '>'];
    let mut k: usize = 0;
    proof {
        reveal_strlit("</body>");
    }
    assert(target@ =~= "</body>"@);
    while k < 7
        invariant
            k <= 7,
            i + 7 <= v@.len(),
            v@.len() == vlen,
            target@ == "</body>"@,
            forall|j: int| 0 <= j < k ==> crate::text::lower_char(v@[i + j]) == target@[j],
        decreases 7 - k,
    {
        let c = v[i + k];
        let l = if 'A' <= c && c <= 'Z' { ((c as u32) + 32) as u8 as char } else { c };
        assert(l == crate::text::lower_char(c)) by {
            if 'A' <= c && c <= 'Z' {
                assert(((c as u32) + 32) < 256);
            }
        }
        if l != target[k] {
            assert(ascii_lower(v@.subrange(i as int, i + 7))[k as int] != target@[k as int]);
            return false;
        }
        k = k + 1;
    }
    assert(ascii_lower(v@.subrange(i as int, i + 7)) =~= "</body>"@);
    true
}

/// Inject the overlay snippet before the last `</body>` (matched without
/// case), or at the end when there is none.
pub fn inject_overlay(html: &str, findings: &[Finding]) -> (r: String)
    ensures
        r@ == with_overlay(html@, findings@),
{
    let snippet = generate_overlay_script(findings);
    let v = chars_of(html);
    let mut found: Option<usize> = None;
    let vlen = v.len();
    if vlen >= 7 {
        let mut i = vlen - 7;
        loop
            invariant_except_break
                found is None,
            invariant
                i + 7 <= v@.len(),
                last_body_close(v@, v@.len() - 7) == last_body_close(v@, i as int),
            ensures
                match found {
                    Some(p) => last_body_close(v@, v@.len() - 7) == Some(p as int) && p + 7 <= v@.len(),
                    None => last_body_close(v@, v@.len() - 7) is None,
                },
            decreases i,
        {
            if body_close_at_exec(&v, i) {
                found = Some(i);
                break;
            }
            if i == 0 {
                assert(last_body_close(v@, -1) is None);
                break;
            }
            i = i - 1;
        }
    } else {
        assert(last_body_close(v@, v@.len() - 7) is None);
    }
    match found {
        Some(p) => {
            let head = sub_chars(&v, 0, p);
            let tail = sub_chars(&v, p, v.len());
            let mut out = string_of(&head);
            push_char(&mut out, '\n');
            out.append(snippet.as_str());
            push_char(&mut out, '\n');
            push_chars(&mut out, &tail);
            out
        },
        None => {
            let mut out = crate::text::owned(html);
            push_char(&mut out, '\n');
            out.append(snippet.as_str());
            out
        },
    }
}

/// The findings recorded for a page, if any.
///
/// Trusted: calls `BTreeMap::get`, which std documents as returning the
/// value stored under the key.
#[verifier::external_body]
fn findings_of_page<'a>(m: &'a std::collections::BTreeMap<String, Vec<Finding>>, page: &String) -> (r: Option<&'a Vec<Finding>>)
    ensures
        match r {
            Some(v) => m@.contains_key(*page) && m@[*page] == *v,
            None => !m@.contains_key(*page),
        },
{
    m.get(page)
}

/// The page with the overlay of its findings in `report` (none when the
/// report has no entry for it).
pub fn page_with_overlay(report: &AuditReport, url_path: &String, html: &str) -> (r: String)
    ensures
        r@ == with_overlay(html@, if report.page_findings@.contains_key(*url_path) { report.page_findings@[*url_path]@ } else { seq![] }),
{
    match findings_of_page(&report.page_findings, url_path) {
        Some(v) => inject_overlay(html, v.as_slice()),
        None => {
            let empty: Vec<Finding> = Vec::new();
            assert(empty@ =~= Seq::<Finding>::empty());
            inject_overlay(html, empty.as_slice())
        },
    }
}

} // verus!
