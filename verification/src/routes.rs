//! HTTP route frameworks: which framework a source file uses, detected by
//! well-known byte strings.

use vstd::prelude::*;
use vstd::string::StringSliceAdditionalSpecFns;
use vstd::utf8::encode_utf8;
use crate::language::Language;

verus! {

/// Supported HTTP frameworks for route extraction.
#[derive(Debug, Clone, Copy, PartialEq, Eq, Structural)]
pub enum Framework {
    /// FastAPI (Python): decorator pattern `@app.get("/path")`.
    FastApi,
    /// Gin (Go): call-expression pattern `r.GET("/path", handler)`.
    Gin,
    /// Express (Node/TS): call-expression pattern `app.get("/path", handler)`.
    Express,
}

/// `n` occurs in `h` at some position.
pub open spec fn bytes_occur(h: Seq<u8>, n: Seq<u8>) -> bool {
    exists|i: int| 0 <= i && i + n.len() <= h.len() && #[trigger] h.subrange(i, i + n.len()) == n
}

/// Byte-substring scan.
pub fn contains(haystack: &[u8], needle: &[u8]) -> (b: bool)
    requires
        needle@.len() > 0,
    ensures
        b == bytes_occur(haystack@, needle@),
{
    if needle.len() > haystack.len() {
        return false;
    }
    let last = haystack.len() - needle.len();
    let mut i: usize = 0;
    loop
        invariant
            i <= last,
            last == haystack@.len() - needle@.len(),
            forall|k: int| 0 <= k < i ==> #[trigger] haystack@.subrange(k, k + needle@.len()) != needle@,
        decreases last - i,
    {
        let mut j: usize = 0;
        let mut same = true;
        let hl = haystack.len();
        assert(haystack@.subrange(i as int, i as int) =~= needle@.subrange(0, 0));
        while j < needle.len()
            invariant
                j <= needle@.len(),
                hl == haystack@.len(),
                i <= last,
                last == haystack@.len() - needle@.len(),
                same == (haystack@.subrange(i as int, i + j) == needle@.subrange(0, j as int)),
            decreases needle.len() - j,
        {
            if haystack[i + j] != needle[j] {
                if same {
                    assert(haystack@.subrange(i as int, i + j + 1)[j as int] != needle@.subrange(0, j + 1)[j as int]);
                }
                same = false;
            } else if same {
                assert(haystack@.subrange(i as int, i + j + 1) =~= haystack@.subrange(i as int, i + j).push(haystack@[i + j]));
                assert(needle@.subrange(0, j + 1) =~= needle@.subrange(0, j as int).push(needle@[j as int]));
            }
            if !same {
                assert(haystack@.subrange(i as int, i + j + 1) != needle@.subrange(0, j + 1)) by {
                    if haystack@.subrange(i as int, i + j + 1) == needle@.subrange(0, j + 1) {
                        assert(haystack@.subrange(i as int, i + j) =~= haystack@.subrange(i as int, i + j + 1).subrange(0, j as int));
                        assert(needle@.subrange(0, j as int) =~= needle@.subrange(0, j + 1).subrange(0, j as int));
                    }
                }
            }
            j = j + 1;
        }
        assert(needle@.subrange(0, needle@.len() as int) =~= needle@);
        if same {
            return true;
        }
        if i == last {
            assert forall|k: int| 0 <= k && k + needle@.len() <= haystack@.len() implies #[trigger] haystack@.subrange(
                k,
                k + needle@.len(),
            ) != needle@ by {
                assert(k <= i);
            }
            return false;
        }
        i = i + 1;
    }
}

/// Which framework (if any) a file of language `lang` with bytes `source`
/// uses, by the imports that name it.
pub open spec fn spec_detect_framework(lang: Language, source: Seq<u8>) -> Option<Framework> {
    match lang {
        Language::Python => if bytes_occur(source, encode_utf8("from fastapi import"@)) || bytes_occur(
            source,
            encode_utf8("import fastapi"@),
        ) {
            Some(Framework::FastApi)
        } else {
            None
        },
        Language::Go => if bytes_occur(source, encode_utf8("gin.New("@)) || bytes_occur(source, encode_utf8("*gin.Engine"@))
            || bytes_occur(source, encode_utf8("gin.Default()"@)) || bytes_occur(
            source,
            encode_utf8("\"github.com/gin-gonic/gin\""@),
        ) {
            Some(Framework::Gin)
        } else {
            None
        },
        Language::JavaScript | Language::TypeScript | Language::Tsx => if bytes_occur(
            source,
            encode_utf8("require('express')"@),
        ) || bytes_occur(source, encode_utf8("require(\"express\")"@)) || bytes_occur(
            source,
            encode_utf8("from 'express'"@),
        ) || bytes_occur(source, encode_utf8("from \"express\""@)) {
            Some(Framework::Express)
        } else {
            None
        },
        _ => None,
    }
}

proof fn encode_nonempty(s: Seq<char>)
    requires
        s.len() > 0,
    ensures
        encode_utf8(s).len() > 0,
{
    assert(vstd::utf8::encode_scalar(s[0] as u32).len() > 0);
}

fn has(source: &[u8], needle: &str) -> (b: bool)
    requires
        needle@.len() > 0,
    ensures
        b == bytes_occur(source@, encode_utf8(needle@)),
{
    let nb = needle.as_bytes();
    proof {
        encode_nonempty(needle@);
    }
    contains(source, nb)
}

/// Detects which HTTP framework a single file belongs to. The file's path
/// plays no part.
pub fn detect_framework(lang: Language, file: &str, source: &[u8]) -> (r: Option<Framework>)
    ensures
        r == spec_detect_framework(lang, source@),
{
    proof {
        reveal_strlit("from fastapi import");
        reveal_strlit("import fastapi");
        reveal_strlit("gin.New(");
        reveal_strlit("*gin.Engine");
        reveal_strlit("gin.Default()");
        reveal_strlit("\"github.com/gin-gonic/gin\"");
        reveal_strlit("require('express')");
        reveal_strlit("require(\"express\")");
        reveal_strlit("from 'express'");
        reveal_strlit("from \"express\"");
    }
    match lang {
        Language::Python => {
            if has(source, "from fastapi import") || has(source, "import fastapi") {
                return Some(Framework::FastApi);
            }
            None
        },
        Language::Go => {
            if has(source, "gin.New(") || has(source, "*gin.Engine") || has(source, "gin.Default()") || has(
                source,
                "\"github.com/gin-gonic/gin\"",
            ) {
                return Some(Framework::Gin);
            }
            None
        },
        Language::JavaScript | Language::TypeScript | Language::Tsx => {
            if has(source, "require('express')") || has(source, "require(\"express\")") || has(source, "from 'express'")
                || has(source, "from \"express\"") {
                return Some(Framework::Express);
            }
            None
        },
        _ => None,
    }
}

/// Where a framework's route query source lives, relative to the queries
/// directory: `routes/<framework>.scm`.
pub fn routes_scm(fw: Framework) -> (r: &'static str)
    ensures
        r@ == match fw {
            Framework::FastApi => "routes/fastapi.scm"@,
            Framework::Gin => "routes/gin.scm"@,
            Framework::Express => "routes/express.scm"@,
        },
{
    match fw {
        Framework::FastApi => "routes/fastapi.scm",
        Framework::Gin => "routes/gin.scm",
        Framework::Express => "routes/express.scm",
    }
}

/// The UTF-8 bytes of `text` occur somewhere in `source`.
pub open spec fn source_mentions(source: Seq<u8>, text: Seq<char>) -> bool {
    exists|i: int|
        0 <= i && i + encode_utf8(text).len() <= source.len() && #[trigger] source.subrange(
            i,
            i + encode_utf8(text).len(),
        ) == encode_utf8(text)
}

/// Framework detection by language: a JavaScript, TypeScript or TSX file is
/// Express exactly when it mentions `require('express')`,
/// `require("express")`, `from 'express'` or `from "express"`; a Python file
/// is FastAPI exactly when it mentions `from fastapi import` or
/// `import fastapi`; a Go file is Gin exactly when it mentions `gin.New(`,
/// `*gin.Engine`, `gin.Default()` or `"github.com/gin-gonic/gin"`; any other
/// file has no framework.
pub proof fn frameworks_are_detected_by_their_imports(lang: Language, source: Seq<u8>)
    ensures
        (lang == Language::JavaScript || lang == Language::TypeScript || lang == Language::Tsx) ==> spec_detect_framework(
            lang,
            source,
        ) == if source_mentions(source, "require('express')"@) || source_mentions(source, "require(\"express\")"@)
            || source_mentions(source, "from 'express'"@) || source_mentions(source, "from \"express\""@) {
            Some(Framework::Express)
        } else {
            None
        },
        lang == Language::Python ==> spec_detect_framework(lang, source) == if source_mentions(
            source,
            "from fastapi import"@,
        ) || source_mentions(source, "import fastapi"@) {
            Some(Framework::FastApi)
        } else {
            None
        },
        lang == Language::Go ==> spec_detect_framework(lang, source) == if source_mentions(source, "gin.New("@)
            || source_mentions(source, "*gin.Engine"@) || source_mentions(source, "gin.Default()"@) || source_mentions(
            source,
            "\"github.com/gin-gonic/gin\""@,
        ) {
            Some(Framework::Gin)
        } else {
            None
        },
        !(lang == Language::JavaScript || lang == Language::TypeScript || lang == Language::Tsx || lang
            == Language::Python || lang == Language::Go) ==> spec_detect_framework(lang, source) is None,
{
}

} // verus!
