//! Deterministic assembly of an encoded token, size metrics and a date
//! label into the fixed-structure output document.
//!
//! The document's skeleton is a compile-time constant, split at its four
//! interpolation points; assembly only composes already-computed values into
//! those positions, verbatim, and so is a pure function of its arguments.

use vstd::prelude::*;
use vstd::string::{StringExecFns, StringSliceAdditionalSpecFns};
use vstd::utf8::encode_utf8;

use crate::numfmt::{decimal_chars, u64_to_decimal};
use crate::percent::{percent_encoded, url_encode};
use crate::stamp::{chrono_free_timestamp, date_label};
use crate::text::chars_of;

verus! {

pub const TEMPLATE_TO_ORIGINAL_SIZE: &'static str = r#"<!DOCTYPE html>
<html lang="en">
<head>
    <meta charset="UTF-8">
    <meta name="viewport" content="width=device-width, initial-scale=1.0">
    <title>SuperSeymour - Rust-Generated Bookmarklet 🦀</title>
    <style>
        * {
            margin: 0;
            padding: 0;
            box-sizing: border-box;
        }

        body {
            font-family: -apple-system, BlinkMacSystemFont, 'Segoe UI', Roboto, sans-serif;
            background: linear-gradient(135deg, #667eea 0%, #764ba2 100%);
            min-height: 100vh;
            display: flex;
            align-items: center;
            justify-content: center;
            padding: 20px;
        }

        .container {
            background: white;
            border-radius: 20px;
            padding: 40px;
            max-width: 900px;
            width: 100%;
            box-shadow: 0 20px 60px rgba(0,0,0,0.3);
        }

        h1 {
            color: #333;
            margin-bottom: 10px;
            display: flex;
            align-items: center;
            gap: 10px;
        }

        .rust-badge {
            background: linear-gradient(135deg, #ff6b6b, #ee5a24);
            color: white;
            padding: 4px 12px;
            border-radius: 20px;
            font-size: 0.8rem;
            font-weight: 600;
        }

        .subtitle {
            color: #666;
            margin-bottom: 30px;
            font-size: 1.1rem;
        }

        .stats-grid {
            display: grid;
            grid-template-columns: repeat(auto-fit, minmax(200px, 1fr));
            gap: 20px;
            margin: 30px 0;
        }

        .stat-card {
            background: linear-gradient(135deg, #f5f7fa, #c3cfe2);
            padding: 20px;
            border-radius: 12px;
            text-align: center;
        }

        .stat-value {
            font-size: 2rem;
            font-weight: bold;
            color: #0066cc;
        }

        .stat-label {
            color: #666;
            margin-top: 5px;
        }

        .bookmarklet-container {
            background: linear-gradient(135deg, #0066cc, #0099ff);
            border-radius: 20px;
            padding: 40px;
            text-align: center;
            margin: 30px 0;
            position: relative;
            overflow: hidden;
        }

        .bookmarklet-container::before {
            content: '';
            position: absolute;
            top: -50%;
            right: -50%;
            width: 200%;
            height: 200%;
            background: radial-gradient(circle, rgba(255,255,255,0.1) 0%, transparent 70%);
            animation: pulse 3s ease-in-out infinite;
        }

        @keyframes pulse {
            0%, 100% { transform: scale(1); }
            50% { transform: scale(1.1); }
        }

        .bookmarklet {
            display: inline-block;
            padding: 20px 50px;
            background: white;
            color: #0066cc;
            text-decoration: none;
            border-radius: 50px;
            font-weight: 700;
            font-size: 1.3rem;
            transition: all 0.3s ease;
            cursor: move;
            position: relative;
            z-index: 1;
            box-shadow: 0 10px 30px rgba(0,0,0,0.2);
        }

        .bookmarklet:hover {
            transform: translateY(-3px);
            box-shadow: 0 15px 40px rgba(0,0,0,0.3);
        }

        .bookmarklet:active {
            transform: translateY(-1px);
        }

        .drag-hint {
            color: white;
            margin-top: 20px;
            font-size: 1.1rem;
            opacity: 0.9;
        }

        .info-box {
            background: #e8f4fd;
            border-left: 4px solid #0066cc;
            padding: 20px;
            border-radius: 8px;
            margin: 20px 0;
        }

        .feature-grid {
            display: grid;
            grid-template-columns: repeat(auto-fit, minmax(150px, 1fr));
            gap: 15px;
            margin: 20px 0;
        }

        .feature {
            background: #f8f9fa;
            padding: 15px;
            border-radius: 8px;
            text-align: center;
            transition: transform 0.2s;
        }

        .feature:hover {
            transform: translateY(-2px);
            box-shadow: 0 5px 15px rgba(0,0,0,0.1);
        }

        .feature-icon {
            font-size: 2rem;
            margin-bottom: 10px;
        }

        .success-banner {
            background: linear-gradient(135deg, #00c851, #00ff00);
            color: white;
            padding: 15px;
            border-radius: 8px;
            margin-bottom: 20px;
            text-align: center;
            font-weight: 600;
        }

        code {
            background: #f0f0f0;
            padding: 2px 6px;
            border-radius: 4px;
            font-family: 'Monaco', 'Courier New', monospace;
        }

        .rust-footer {
            text-align: center;
            margin-top: 40px;
            padding-top: 20px;
            border-top: 2px solid #f0f0f0;
            color: #666;
        }

        .rust-logo {
            font-size: 2rem;
            color: #ff6b6b;
        }
    </style>
</head>
<body>
    <div class="container">
        <h1>
            ⚡ SuperSeymour
            <span class="rust-badge">🦀 Rust Edition</span>
        </h1>
        <p class="subtitle">100% Pure Rust. Zero Dependencies. Maximum Freedom.</p>

        <div class="success-banner">
            ✅ Bookmarklet Generated Successfully with Rust!
        </div>

        <div class="stats-grid">
            <div class="stat-card">
                <div class="stat-value">"#;

pub const TEMPLATE_TO_ENCODED_SIZE: &'static str = r#"</div>
                <div class="stat-label">Original Size (KB)</div>
            </div>
            <div class="stat-card">
                <div class="stat-value">"#;

pub const TEMPLATE_TO_LINK: &'static str = r#"</div>
                <div class="stat-label">Encoded Size (KB)</div>
            </div>
            <div class="stat-card">
                <div class="stat-value">0</div>
                <div class="stat-label">Dependencies</div>
            </div>
            <div class="stat-card">
                <div class="stat-value">∞</div>
                <div class="stat-label">Freedom</div>
            </div>
        </div>

        <div class="bookmarklet-container">
            <a href=""#;

pub const TEMPLATE_TO_STAMP: &'static str = r#"" class="bookmarklet">
                ⚡ SuperSeymour
            </a>
            <div class="drag-hint">
                ↑ Drag this button to your bookmarks bar
            </div>
        </div>

        <div class="info-box">
            <h3>🚀 Installation Instructions</h3>
            <ol>
                <li>Show your bookmarks bar: <code>Cmd+Shift+B</code> (Mac) or <code>Ctrl+Shift+B</code> (PC)</li>
                <li>Drag the ⚡ SuperSeymour button to your bookmarks bar</li>
                <li>Click the bookmark on any website to activate</li>
                <li>Click the glowing orb to see the radial menu</li>
            </ol>
        </div>

        <h3>✨ Features Included</h3>
        <div class="feature-grid">
            <div class="feature">
                <div class="feature-icon">🎨</div>
                <strong>Animated Orb</strong>
            </div>
            <div class="feature">
                <div class="feature-icon">🎯</div>
                <strong>Draggable UI</strong>
            </div>
            <div class="feature">
                <div class="feature-icon">🌀</div>
                <strong>Radial Menu</strong>
            </div>
            <div class="feature">
                <div class="feature-icon">📖</div>
                <strong>Reader Mode</strong>
            </div>
            <div class="feature">
                <div class="feature-icon">🌙</div>
                <strong>Dark Mode</strong>
            </div>
            <div class="feature">
                <div class="feature-icon">⚡</div>
                <strong>Speed Mode</strong>
            </div>
            <div class="feature">
                <div class="feature-icon">🧘</div>
                <strong>Zen Mode</strong>
            </div>
            <div class="feature">
                <div class="feature-icon">🔒</div>
                <strong>100% Private</strong>
            </div>
        </div>

        <div class="info-box" style="background: #fff3cd; border-color: #ffc107;">
            <strong>🦀 Why Rust?</strong><br>
            This bookmarklet generator is built with pure Rust - no Python, no Node.js, no external dependencies.
            Just blazingly fast, memory-safe code that respects your freedom.
            <br><br>
            <em>Founderstowne Philosophy: If it can't be done in Rust, reconsider if we need it.</em>
        </div>

        <div class="rust-footer">
            <div class="rust-logo">🦀</div>
            <p>Built with Rust • Zero Dependencies • Maximum Paranoia</p>
            <p style="margin-top: 10px; font-size: 0.9rem;">
                Generated: "#;

pub const TEMPLATE_TAIL: &'static str = r#" | Founderstowne Academy
            </p>
        </div>
    </div>
</body>
</html>"#;

/// Bytes per kibibyte: sizes are reported in whole KB by integer division.
pub const BYTES_PER_KB: usize = 1024;

/// The assembled document for a token, its size metrics and a date label:
/// the skeleton's five fragments with the two sizes (in whole KB), the
/// token and the label interpolated verbatim, in fixed positions.
pub open spec fn assembled(
    token: Seq<char>,
    original_size: int,
    encoded_size: int,
    label: Seq<char>,
) -> Seq<char> {
    TEMPLATE_TO_ORIGINAL_SIZE@ + decimal_chars(original_size / (BYTES_PER_KB as int))
        + TEMPLATE_TO_ENCODED_SIZE@ + decimal_chars(encoded_size / (BYTES_PER_KB as int))
        + TEMPLATE_TO_LINK@ + token + TEMPLATE_TO_STAMP@ + label + TEMPLATE_TAIL@
}

/// Assembles the document, exactly as `assembled` describes it. Pure
/// composition: no reformatting, escaping or validation of the values.
pub fn assemble(
    token: &str,
    original_size: usize,
    encoded_size: usize,
    label: &str,
) -> (r: String)
    ensures
        r@ == assembled(token@, original_size as int, encoded_size as int, label@),
{
    let mut out = String::new();
    out.append(TEMPLATE_TO_ORIGINAL_SIZE);
    let original_kb = u64_to_decimal((original_size / BYTES_PER_KB) as u64);
    out.append(original_kb.as_str());
    out.append(TEMPLATE_TO_ENCODED_SIZE);
    let encoded_kb = u64_to_decimal((encoded_size / BYTES_PER_KB) as u64);
    out.append(encoded_kb.as_str());
    out.append(TEMPLATE_TO_LINK);
    out.append(token);
    out.append(TEMPLATE_TO_STAMP);
    out.append(label);
    out.append(TEMPLATE_TAIL);
    proof {
        assert(out@ =~= assembled(token@, original_size as int, encoded_size as int, label@));
    }
    out
}

/// Assembly is deterministic: any two documents assembled from identical
/// token, metrics and label are equal character for character. This is what
/// `assemble`'s contract pins down: both results are the one sequence
/// `assembled` names.
pub proof fn lemma_assembly_deterministic(
    token: Seq<char>,
    original_size: int,
    encoded_size: int,
    label: Seq<char>,
    first: Seq<char>,
    second: Seq<char>,
)
    requires
        first == assembled(token, original_size, encoded_size, label),
        second == assembled(token, original_size, encoded_size, label),
    ensures
        first == second,
{
}

/// Generates the document for an already-built link and its measured sizes,
/// stamping it with the present moment's date label.
pub fn generate_html(bookmarklet: &str, original_size: usize, encoded_size: usize) -> (r: String)
    ensures
        exists|secs: u64|
            r@ == assembled(
                bookmarklet@,
                original_size as int,
                encoded_size as int,
                date_label(secs as int),
            ),
{
    let label = chrono_free_timestamp();
    let ghost secs = choose|s: u64| label@ == date_label(s as int);
    let r = assemble(bookmarklet, original_size, encoded_size, label.as_str());
    proof {
        assert(r@ == assembled(
            bookmarklet@,
            original_size as int,
            encoded_size as int,
            date_label(secs as int),
        ));
    }
    r
}

/// The executable link: the scheme prefix before the percent-encoded UTF-8
/// bytes of the payload.
pub open spec fn bookmarklet_link(payload: Seq<char>) -> Seq<char> {
    "javascript:"@ + chars_of(percent_encoded(encode_utf8(payload)))
}

/// The whole document for a payload at a moment: the link derived from the
/// payload, the original size measured in UTF-8 bytes of the payload, the
/// encoded size in UTF-8 bytes of that same link, and the moment's label.
pub open spec fn page_for(payload: Seq<char>, secs: int) -> Seq<char> {
    assembled(
        bookmarklet_link(payload),
        encode_utf8(payload).len() as int,
        encode_utf8(bookmarklet_link(payload)).len() as int,
        date_label(secs),
    )
}

/// The full pipeline over an in-memory payload: percent-encode, prefix the
/// scheme, measure both sizes in bytes, and assemble the document with the
/// present moment's date label.
pub fn build_page(payload: &str) -> (r: String)
    ensures
        exists|secs: u64| r@ == page_for(payload@, secs as int),
{
    let token = url_encode(payload);
    let mut link = String::from_str("javascript:");
    link.append(token.as_str());
    let original_size = payload.as_bytes().len();
    let link_text = link.as_str();
    let encoded_size = link_text.as_bytes().len();
    let r = generate_html(link_text, original_size, encoded_size);
    let ghost secs = choose|s: u64|
        r@ == assembled(
            link_text@,
            original_size as int,
            encoded_size as int,
            date_label(s as int),
        );
    proof {
        assert(r@ == assembled(
            link_text@,
            original_size as int,
            encoded_size as int,
            date_label(secs as int),
        ));
        assert(link_text@ == bookmarklet_link(payload@));
        assert(r@ == page_for(payload@, secs as int));
    }
    r
}

/// Size metrics are consistent by construction: in the document built for a
/// payload, the interpolated original size is the payload's byte length and
/// the interpolated encoded size is the byte length of the very link
/// embedded two fragments later, both in whole KB.
pub proof fn lemma_metrics_consistent(payload: Seq<char>, secs: int)
    ensures
        page_for(payload, secs) == TEMPLATE_TO_ORIGINAL_SIZE@ + decimal_chars(
            encode_utf8(payload).len() as int / (BYTES_PER_KB as int),
        ) + TEMPLATE_TO_ENCODED_SIZE@ + decimal_chars(
            encode_utf8(bookmarklet_link(payload)).len() as int / (BYTES_PER_KB as int),
        ) + TEMPLATE_TO_LINK@ + bookmarklet_link(payload) + TEMPLATE_TO_STAMP@ + date_label(secs)
            + TEMPLATE_TAIL@,
{
}

/// The encoded-over-original size ratio in whole percent: undefined for an
/// empty original, else encoded bytes times 100 over original bytes,
/// rounded down.
pub open spec fn compression_percent_of(original_size: int, encoded_size: int) -> Option<u128> {
    if original_size == 0 {
        None
    } else {
        Some(((encoded_size * 100) / original_size) as u128)
    }
}

/// Computes the compression ratio, exactly as `compression_percent_of`
/// describes it: `None` if and only if the original size is zero.
pub fn compression_percent(original_size: usize, encoded_size: usize) -> (r: Option<u128>)
    ensures
        r == compression_percent_of(original_size as int, encoded_size as int),
{
    if original_size == 0 {
        None
    } else {
        Some((encoded_size as u128 * 100) / (original_size as u128))
    }
}

} // verus!
