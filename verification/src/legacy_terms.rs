//! How the words of legacy records (Portuguese, Spanish, French or English) map to the
//! current statuses and priorities.
use vstd::prelude::*;

use crate::model::{RestockStatus, ServiceOrderPriority, ServiceOrderStatus};
use crate::policy::{normalize_tag, normalized_identifier};
use crate::text::{lowercase_of, str_equal, to_lowercase, trim, trimmed};

verus! {

/// The word as legacy records are compared: trimmed and lowercased.
pub open spec fn legacy_word(value: Seq<char>) -> Seq<char> {
    lowercase_of(trim(value))
}

/// The order status a legacy word names; anything unrecognized is pending.
pub open spec fn order_status_for(w: Seq<char>) -> ServiceOrderStatus {
    if w == "andamento"@ || w == "en curso"@ || w == "en_cours"@ || w == "in_progress"@ {
        ServiceOrderStatus::InProgress
    } else if w == "concluida"@ || w == "concluída"@ || w == "completada"@ || w == "terminée"@
        || w == "completed"@ {
        ServiceOrderStatus::Completed
    } else if w == "cancelada"@ || w == "annulée"@ || w == "cancelled"@ || w == "canceled"@ {
        ServiceOrderStatus::Cancelled
    } else {
        ServiceOrderStatus::Pending
    }
}

/// The words legacy records use for an order's state, in Portuguese, Spanish, French or
/// English, name these states: work under way is in progress, finished work is completed,
/// and called-off work is cancelled (compared trimmed and lowercased, see `legacy_word`).
pub proof fn lemma_order_status_words(w: Seq<char>)
    ensures
        w == "andamento"@ || w == "en curso"@ || w == "en_cours"@ || w == "in_progress"@
            ==> order_status_for(w) == ServiceOrderStatus::InProgress,
        w == "concluida"@ || w == "concluída"@ || w == "completada"@ || w == "terminée"@ || w == "completed"@
            ==> order_status_for(w) == ServiceOrderStatus::Completed,
        w == "cancelada"@ || w == "annulée"@ || w == "cancelled"@ || w == "canceled"@
            ==> order_status_for(w) == ServiceOrderStatus::Cancelled,
{
    reveal_strlit("andamento");
    reveal_strlit("en curso");
    reveal_strlit("en_cours");
    reveal_strlit("in_progress");
    reveal_strlit("concluida");
    reveal_strlit("concluída");
    reveal_strlit("completada");
    reveal_strlit("terminée");
    reveal_strlit("completed");
    reveal_strlit("cancelada");
    reveal_strlit("annulée");
    reveal_strlit("cancelled");
    reveal_strlit("canceled");
    assert("concluida"@ != "andamento"@) by {
        assert("concluida"@[0] != "andamento"@[0]);
    }
    assert("concluida"@ != "en curso"@) by {
        assert("concluida"@.len() != "en curso"@.len());
    }
    assert("concluida"@ != "en_cours"@) by {
        assert("concluida"@.len() != "en_cours"@.len());
    }
    assert("concluida"@ != "in_progress"@) by {
        assert("concluida"@.len() != "in_progress"@.len());
    }
    assert("concluída"@ != "andamento"@) by {
        assert("concluída"@[0] != "andamento"@[0]);
    }
    assert("concluída"@ != "en curso"@) by {
        assert("concluída"@.len() != "en curso"@.len());
    }
    assert("concluída"@ != "en_cours"@) by {
        assert("concluída"@.len() != "en_cours"@.len());
    }
    assert("concluída"@ != "in_progress"@) by {
        assert("concluída"@.len() != "in_progress"@.len());
    }
    assert("completada"@ != "andamento"@) by {
        assert("completada"@.len() != "andamento"@.len());
    }
    assert("completada"@ != "en curso"@) by {
        assert("completada"@.len() != "en curso"@.len());
    }
    assert("completada"@ != "en_cours"@) by {
        assert("completada"@.len() != "en_cours"@.len());
    }
    assert("completada"@ != "in_progress"@) by {
        assert("completada"@.len() != "in_progress"@.len());
    }
    assert("terminée"@ != "andamento"@) by {
        assert("terminée"@.len() != "andamento"@.len());
    }
    assert("terminée"@ != "en curso"@) by {
        assert("terminée"@[0] != "en curso"@[0]);
    }
    assert("terminée"@ != "en_cours"@) by {
        assert("terminée"@[0] != "en_cours"@[0]);
    }
    assert("terminée"@ != "in_progress"@) by {
        assert("terminée"@.len() != "in_progress"@.len());
    }
    assert("completed"@ != "andamento"@) by {
        assert("completed"@[0] != "andamento"@[0]);
    }
    assert("completed"@ != "en curso"@) by {
        assert("completed"@.len() != "en curso"@.len());
    }
    assert("completed"@ != "en_cours"@) by {
        assert("completed"@.len() != "en_cours"@.len());
    }
    assert("completed"@ != "in_progress"@) by {
        assert("completed"@.len() != "in_progress"@.len());
    }
    assert("cancelada"@ != "andamento"@) by {
        assert("cancelada"@[0] != "andamento"@[0]);
    }
    assert("cancelada"@ != "en curso"@) by {
        assert("cancelada"@.len() != "en curso"@.len());
    }
    assert("cancelada"@ != "en_cours"@) by {
        assert("cancelada"@.len() != "en_cours"@.len());
    }
    assert("cancelada"@ != "in_progress"@) by {
        assert("cancelada"@.len() != "in_progress"@.len());
    }
    assert("cancelada"@ != "concluida"@) by {
        assert("cancelada"@[1] != "concluida"@[1]);
    }
    assert("cancelada"@ != "concluída"@) by {
        assert("cancelada"@[1] != "concluída"@[1]);
    }
    assert("cancelada"@ != "completada"@) by {
        assert("cancelada"@.len() != "completada"@.len());
    }
    assert("cancelada"@ != "terminée"@) by {
        assert("cancelada"@.len() != "terminée"@.len());
    }
    assert("cancelada"@ != "completed"@) by {
        assert("cancelada"@[1] != "completed"@[1]);
    }
    assert("annulée"@ != "andamento"@) by {
        assert("annulée"@.len() != "andamento"@.len());
    }
    assert("annulée"@ != "en curso"@) by {
        assert("annulée"@.len() != "en curso"@.len());
    }
    assert("annulée"@ != "en_cours"@) by {
        assert("annulée"@.len() != "en_cours"@.len());
    }
    assert("annulée"@ != "in_progress"@) by {
        assert("annulée"@.len() != "in_progress"@.len());
    }
    assert("annulée"@ != "concluida"@) by {
        assert("annulée"@.len() != "concluida"@.len());
    }
    assert("annulée"@ != "concluída"@) by {
        assert("annulée"@.len() != "concluída"@.len());
    }
    assert("annulée"@ != "completada"@) by {
        assert("annulée"@.len() != "completada"@.len());
    }
    assert("annulée"@ != "terminée"@) by {
        assert("annulée"@.len() != "terminée"@.len());
    }
    assert("annulée"@ != "completed"@) by {
        assert("annulée"@.len() != "completed"@.len());
    }
    assert("cancelled"@ != "andamento"@) by {
        assert("cancelled"@[0] != "andamento"@[0]);
    }
    assert("cancelled"@ != "en curso"@) by {
        assert("cancelled"@.len() != "en curso"@.len());
    }
    assert("cancelled"@ != "en_cours"@) by {
        assert("cancelled"@.len() != "en_cours"@.len());
    }
    assert("cancelled"@ != "in_progress"@) by {
        assert("cancelled"@.len() != "in_progress"@.len());
    }
    assert("cancelled"@ != "concluida"@) by {
        assert("cancelled"@[1] != "concluida"@[1]);
    }
    assert("cancelled"@ != "concluída"@) by {
        assert("cancelled"@[1] != "concluída"@[1]);
    }
    assert("cancelled"@ != "completada"@) by {
        assert("cancelled"@.len() != "completada"@.len());
    }
    assert("cancelled"@ != "terminée"@) by {
        assert("cancelled"@.len() != "terminée"@.len());
    }
    assert("cancelled"@ != "completed"@) by {
        assert("cancelled"@[1] != "completed"@[1]);
    }
    assert("canceled"@ != "andamento"@) by {
        assert("canceled"@.len() != "andamento"@.len());
    }
    assert("canceled"@ != "en curso"@) by {
        assert("canceled"@[0] != "en curso"@[0]);
    }
    assert("canceled"@ != "en_cours"@) by {
        assert("canceled"@[0] != "en_cours"@[0]);
    }
    assert("canceled"@ != "in_progress"@) by {
        assert("canceled"@.len() != "in_progress"@.len());
    }
    assert("canceled"@ != "concluida"@) by {
        assert("canceled"@.len() != "concluida"@.len());
    }
    assert("canceled"@ != "concluída"@) by {
        assert("canceled"@.len() != "concluída"@.len());
    }
    assert("canceled"@ != "completada"@) by {
        assert("canceled"@.len() != "completada"@.len());
    }
    assert("canceled"@ != "terminée"@) by {
        assert("canceled"@[0] != "terminée"@[0]);
    }
    assert("canceled"@ != "completed"@) by {
        assert("canceled"@.len() != "completed"@.len());
    }
}

/// The order status of a legacy status text.
pub fn order_status(value: &str) -> (r: ServiceOrderStatus)
    ensures
        r == order_status_for(legacy_word(value@)),
{
    let t = trimmed(value);
    let w = to_lowercase(t.as_str());
    let w = w.as_str();
    if str_equal(w, "andamento") || str_equal(w, "en curso") || str_equal(w, "en_cours")
        || str_equal(w, "in_progress") {
        ServiceOrderStatus::InProgress
    } else if str_equal(w, "concluida") || str_equal(w, "concluída") || str_equal(w, "completada")
        || str_equal(w, "terminée") || str_equal(w, "completed") {
        ServiceOrderStatus::Completed
    } else if str_equal(w, "cancelada") || str_equal(w, "annulée") || str_equal(w, "cancelled")
        || str_equal(w, "canceled") {
        ServiceOrderStatus::Cancelled
    } else {
        ServiceOrderStatus::Pending
    }
}

/// The priority a legacy word names; anything unrecognized is normal.
pub open spec fn order_priority_for(w: Seq<char>) -> ServiceOrderPriority {
    if w == "low"@ || w == "baixa"@ || w == "baja"@ || w == "faible"@ {
        ServiceOrderPriority::Low
    } else if w == "high"@ || w == "alta"@ || w == "haute"@ {
        ServiceOrderPriority::High
    } else if w == "urgent"@ || w == "urgente"@ {
        ServiceOrderPriority::Urgent
    } else {
        ServiceOrderPriority::Normal
    }
}

/// The priority of a legacy priority text.
pub fn order_priority(value: &str) -> (r: ServiceOrderPriority)
    ensures
        r == order_priority_for(legacy_word(value@)),
{
    let t = trimmed(value);
    let w = to_lowercase(t.as_str());
    let w = w.as_str();
    if str_equal(w, "low") || str_equal(w, "baixa") || str_equal(w, "baja") || str_equal(
        w,
        "faible",
    ) {
        ServiceOrderPriority::Low
    } else if str_equal(w, "high") || str_equal(w, "alta") || str_equal(w, "haute") {
        ServiceOrderPriority::High
    } else if str_equal(w, "urgent") || str_equal(w, "urgente") {
        ServiceOrderPriority::Urgent
    } else {
        ServiceOrderPriority::Normal
    }
}

/// The review state a legacy word names; anything unrecognized is pending.
pub open spec fn restock_status_for(w: Seq<char>) -> RestockStatus {
    if w == "aprovada"@ || w == "aprobada"@ || w == "approuvée"@ || w == "approved"@ {
        RestockStatus::Approved
    } else if w == "rejeitada"@ || w == "rechazada"@ || w == "rejetée"@ || w == "rejected"@ {
        RestockStatus::Rejected
    } else {
        RestockStatus::Pending
    }
}

/// The review state of a legacy restock status text.
pub fn restock_status(value: &str) -> (r: RestockStatus)
    ensures
        r == restock_status_for(legacy_word(value@)),
{
    let t = trimmed(value);
    let w = to_lowercase(t.as_str());
    let w = w.as_str();
    if str_equal(w, "aprovada") || str_equal(w, "aprobada") || str_equal(w, "approuvée")
        || str_equal(w, "approved") {
        RestockStatus::Approved
    } else if str_equal(w, "rejeitada") || str_equal(w, "rechazada") || str_equal(w, "rejetée")
        || str_equal(w, "rejected") {
        RestockStatus::Rejected
    } else {
        RestockStatus::Pending
    }
}

/// The priority a legacy order has when its record names none.
pub fn default_priority() -> (r: String)
    ensures
        r@ == "normal"@,
{
    crate::text::owned("normal")
}

/// The status a legacy record has when it names none.
pub fn default_pending() -> (r: String)
    ensures
        r@ == "pending"@,
{
    crate::text::owned("pending")
}

/// Normalizes a legacy asset tag as current tags are normalized.
pub fn normalize_legacy_tag(tag: &str) -> (r: String)
    ensures
        r@ == normalized_identifier(tag@),
{
    normalize_tag(tag)
}

} // verus!
