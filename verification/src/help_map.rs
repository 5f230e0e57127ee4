//! The command map printed under `devctx --help`: commands grouped by the job
//! they do, in the reader's language, with the few that are easy to miss
//! spelled out.

use vstd::prelude::*;
use crate::config::Language;
use crate::text::{owned, same_text};

verus! {

/// The map in English.
pub const EN: &'static str = "\
Commands by job:
  Set up        init · models · mcp configure · projects add
  Index         index · reindex · watch · hooks install · status · repair
  Read code     search · symbol · context · impact · routes · summarize
  Memory        remember · recall · memory-stats · memory-forget · memories export|import
  Interfaces    tui · web · api · mcp · serve

Easy to miss:
  impact <symbol>   Everything a change to that symbol would reach, transitively —
                    what other tools call impact analysis.
  context <query>   One budgeted brief: what is already known, the code that
                    ranks highest, and the memories recorded against those files.
  symbol <name>     A symbol's definition and code, by name.
  routes            The HTTP routes the frameworks in this repo declare.
  memories export   Every memory as JSONL; import only ever adds, never overwrites.
  projects list     What this machine has indexed, and where.

devctx <command> --help explains one command in full.
Set DEVCTX_LANG=es for this summary in Spanish.";

/// The map in Spanish.
pub const ES: &'static str = "\
Comandos por tarea:
  Configurar    init · models · mcp configure · projects add
  Indexar       index · reindex · watch · hooks install · status · repair
  Leer código   search · symbol · context · impact · routes · summarize
  Memoria       remember · recall · memory-stats · memory-forget · memories export|import
  Interfaces    tui · web · api · mcp · serve

Fáciles de pasar por alto:
  impact <símbolo>  Todo lo que alcanzaría un cambio en ese símbolo, de forma
                    transitiva — el análisis de impacto.
  context <query>   Un brief con presupuesto: lo que ya se sabe, el código que
                    mejor rankea, y las memorias registradas sobre esos archivos.
  symbol <nombre>   La definición y el código de un símbolo, por nombre.
  routes            Las rutas HTTP que declaran los frameworks de este repo.
  memories export   Todas las memorias en JSONL; import solo agrega, nunca pisa.
  projects list     Lo que esta máquina tiene indexado, y dónde.

devctx <comando> --help explica un comando en detalle.
Poné DEVCTX_LANG=en para este resumen en inglés.";

/// The map itself, in `lang`.
pub fn text(lang: Language) -> (s: String)
    ensures
        s@ == match lang {
            Language::En => EN@,
            Language::Es => ES@,
        },
{
    match lang {
        Language::En => owned(EN),
        Language::Es => owned(ES),
    }
}

/// The language to print the map in: `DEVCTX_LANG` (`es` or `en`) first, so a
/// reader can override without editing anything, then the project's
/// configured language, then English.
pub fn language_choice(env_lang: Option<&str>, configured: Option<Language>) -> (l: Language)
    ensures
        l == if env_lang matches Some(v) && v@ == "es"@ {
            Language::Es
        } else if env_lang matches Some(v) && v@ == "en"@ {
            Language::En
        } else {
            match configured {
                Some(c) => c,
                None => Language::En,
            }
        },
{
    match env_lang {
        Some(v) => {
            if same_text(v, "es") {
                return Language::Es;
            }
            if same_text(v, "en") {
                return Language::En;
            }
        },
        None => {},
    }
    match configured {
        Some(c) => c,
        None => Language::En,
    }
}

} // verus!
